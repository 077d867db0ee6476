use wokwi_chips_api::{create, BusStep, DeviceRegistry, HostCall, I2CDeviceConfig, Pin, PinMode};

type Connect = Box<dyn FnMut(u32, bool) -> bool>;
type Read = Box<dyn FnMut() -> u8>;
type Write = Box<dyn FnMut(u8) -> bool>;
type Disconnect = Box<dyn FnMut()>;
type Devices = DeviceRegistry<Connect, Read, Write, Disconnect>;

fn device(
    connect: Option<Connect>,
    read: Option<Read>,
    write: Option<Write>,
    disconnect: Option<Disconnect>,
) -> I2CDeviceConfig<Connect, Read, Write, Disconnect> {
    I2CDeviceConfig {
        address: 0x42,
        scl: Pin::new(10, PinMode::Output),
        sda: Pin::new(11, PinMode::Output),
        connect_callback: connect,
        read_callback: read,
        write_callback: write,
        disconnect_callback: disconnect,
    }
}

#[test]
fn rejecting_connect_is_surfaced() {
    let mut reg: Devices = DeviceRegistry::new();
    let call = create(&mut reg, device(Some(Box::new(|_, _| false)), None, None, None));
    assert_eq!(call, HostCall::I2CInit { token: 0, address: 0x42, scl: 10, sda: 11 });
    let answer = match reg.begin_connect(0) {
        BusStep::Call(mut f) => {
            let accepted = f(0x42, true);
            reg.end_connect(0, f, accepted)
        }
        BusStep::Reply(_) => panic!("connect callback expected"),
    };
    assert!(!answer);
    // the callback is back in place for the next transaction
    assert!(matches!(reg.begin_connect(0), BusStep::Call(_)));
}

#[test]
fn missing_slots_give_defaults() {
    let mut reg: Devices = DeviceRegistry::new();
    create(&mut reg, device(None, None, None, None));
    assert!(matches!(reg.begin_connect(0), BusStep::Reply(true)));
    assert!(matches!(reg.begin_read(0), BusStep::Reply(0)));
    assert!(matches!(reg.begin_write(0), BusStep::Reply(true)));
    assert!(matches!(reg.begin_disconnect(0), BusStep::Reply(())));
}

#[test]
fn unknown_token_gives_defaults() {
    let mut reg: Devices = DeviceRegistry::new();
    assert!(matches!(reg.begin_connect(3), BusStep::Reply(true)));
    assert!(matches!(reg.begin_read(3), BusStep::Reply(0)));
    assert!(matches!(reg.begin_write(3), BusStep::Reply(true)));
    assert!(matches!(reg.begin_disconnect(3), BusStep::Reply(())));
    assert_eq!(reg.len(), 0);
}

#[test]
fn read_and_write_results_reach_host() {
    let mut reg: Devices = DeviceRegistry::new();
    create(&mut reg, device(None, None, None, None));
    let call = create(
        &mut reg,
        device(None, Some(Box::new(|| 0x5a)), Some(Box::new(|b| b != 0xff)), Some(Box::new(|| ()))),
    );
    assert_eq!(call, HostCall::I2CInit { token: 1, address: 0x42, scl: 10, sda: 11 });
    let byte = match reg.begin_read(1) {
        BusStep::Call(mut f) => {
            let b = f();
            reg.end_read(1, f, b)
        }
        BusStep::Reply(_) => panic!("read callback expected"),
    };
    assert_eq!(byte, 0x5a);
    let nack = match reg.begin_write(1) {
        BusStep::Call(mut f) => {
            let ack = f(0xff);
            reg.end_write(1, f, ack)
        }
        BusStep::Reply(_) => panic!("write callback expected"),
    };
    assert!(!nack);
    let ack = match reg.begin_write(1) {
        BusStep::Call(mut f) => {
            let ack = f(0x01);
            reg.end_write(1, f, ack)
        }
        BusStep::Reply(_) => panic!("write callback expected"),
    };
    assert!(ack);
    match reg.begin_disconnect(1) {
        BusStep::Call(mut f) => {
            f();
            reg.end_disconnect(1, f);
        }
        BusStep::Reply(_) => panic!("disconnect callback expected"),
    }
    assert!(matches!(reg.begin_disconnect(1), BusStep::Call(_)));
    assert_eq!(reg.len(), 2);
}

#[test]
fn running_callback_gives_default_to_nested_call() {
    let mut reg: Devices = DeviceRegistry::new();
    create(&mut reg, device(Some(Box::new(|_, _| false)), None, None, None));
    let step = reg.begin_connect(0);
    assert!(matches!(reg.begin_connect(0), BusStep::Reply(true)));
    if let BusStep::Call(f) = step {
        assert!(!reg.end_connect(0, f, false));
    } else {
        panic!("connect callback expected");
    }
}
