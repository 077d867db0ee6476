use wokwi_chips_api::{GPIOPin, HostCall, Pin, PinMode, PinValue, Printer};

#[test]
fn gpio5_write_and_set_mode_reach_host() {
    let init = Pin::init_call("GPIO5", PinMode::Output);
    assert_eq!(init, HostCall::PinInit { name: "GPIO5".to_string(), mode: wokwi_chip_ll::OUTPUT });
    let mut pin = Pin::new(5, PinMode::Output);
    assert_eq!(pin.write(PinValue::High), HostCall::PinWrite { pin: 5, value: 1 });
    assert_eq!(pin.set_mode(PinMode::InputPullup), HostCall::PinMode { pin: 5, mode: wokwi_chip_ll::INPUT_PULLUP });
    assert_eq!(pin.get_mode(), PinMode::InputPullup);
    assert_eq!(pin.get_id(), 5);
}

#[test]
fn set_low_and_set_high_write_levels() {
    let pin: GPIOPin = Pin::new(3, PinMode::Output);
    assert_eq!(pin.set_low(), HostCall::PinWrite { pin: 3, value: 0 });
    assert_eq!(pin.set_high(), HostCall::PinWrite { pin: 3, value: 1 });
    assert_eq!(pin.write(PinValue::Low), HostCall::PinWrite { pin: 3, value: 0 });
}

#[test]
fn read_asks_host_for_pin() {
    let pin = Pin::new(-7, PinMode::Input);
    assert_eq!(pin.read(), HostCall::PinRead { pin: -7 });
    assert_eq!(pin.get_mode(), PinMode::Input);
}

#[test]
fn printer_passes_text_through() {
    let mut p = Printer;
    assert_eq!(p.write_str("hello\n"), HostCall::DebugPrint { text: "hello\n".to_string() });
    assert_eq!(p.write_str(""), HostCall::DebugPrint { text: String::new() });
}
