use wokwi_chips_api::{HostCall, Pin, PinMode, PinValue, WatchEdge, WatchRegistry};

#[test]
fn first_watch_is_taken_and_reached_by_dispatch() {
    let mut reg: WatchRegistry<&'static str> = WatchRegistry::new();
    let pin = Pin::new(4, PinMode::Input);
    assert_eq!(pin.watch_call(&reg, WatchEdge::Rising), Some(HostCall::PinWatch { pin: 4, edge: wokwi_chip_ll::RISING }));
    assert!(pin.watch(&mut reg, WatchEdge::Rising, "first", true));
    assert!(reg.is_watched(4));
    let d = reg.begin_dispatch(4, 1).expect("callback");
    assert_eq!(d.pin, 4);
    assert_eq!(d.value, PinValue::High);
    assert_eq!(d.callback, "first");
    assert!(reg.end_dispatch(4, d.callback));
    let d = reg.begin_dispatch(4, 0).expect("callback");
    assert_eq!(d.value, PinValue::Low);
    assert_eq!(d.callback, "first");
}

#[test]
fn refused_by_host_is_not_registered() {
    let mut reg: WatchRegistry<u32> = WatchRegistry::new();
    let pin = Pin::new(4, PinMode::Input);
    assert!(!pin.watch(&mut reg, WatchEdge::Both, 1, false));
    assert!(!reg.is_watched(4));
    assert!(reg.begin_dispatch(4, 1).is_none());
    assert_eq!(reg.len(), 0);
}

#[test]
fn second_watch_is_refused_and_first_still_fires() {
    let mut reg: WatchRegistry<&'static str> = WatchRegistry::new();
    let pin = Pin::new(9, PinMode::Input);
    assert!(pin.watch(&mut reg, WatchEdge::Both, "first", true));
    assert_eq!(pin.watch_call(&reg, WatchEdge::Falling), None);
    assert!(!pin.watch(&mut reg, WatchEdge::Falling, "second", true));
    let d = reg.begin_dispatch(9, 255).expect("callback");
    assert_eq!(d.callback, "first");
    assert_eq!(reg.len(), 1);
}

#[test]
fn unwatch_silences_dispatch() {
    let mut reg: WatchRegistry<u32> = WatchRegistry::new();
    let pin = Pin::new(2, PinMode::Input);
    assert!(pin.watch(&mut reg, WatchEdge::Rising, 7, true));
    assert_eq!(pin.unwatch(&mut reg), Some(HostCall::PinWatchStop { pin: 2 }));
    assert!(reg.begin_dispatch(2, 1).is_none());
    assert_eq!(pin.unwatch(&mut reg), None);
    assert!(reg.begin_dispatch(2, 1).is_none());
}

#[test]
fn unwatch_from_own_callback_is_safe() {
    let mut reg: WatchRegistry<u32> = WatchRegistry::new();
    let pin = Pin::new(2, PinMode::Input);
    let other = Pin::new(3, PinMode::Input);
    assert!(pin.watch(&mut reg, WatchEdge::Rising, 7, true));
    assert!(other.watch(&mut reg, WatchEdge::Rising, 8, true));
    let d = reg.begin_dispatch(2, 1).expect("callback");
    // the callback, while running, removes its own watch
    assert_eq!(pin.unwatch(&mut reg), Some(HostCall::PinWatchStop { pin: 2 }));
    assert!(!reg.end_dispatch(2, d.callback));
    assert!(reg.begin_dispatch(2, 1).is_none());
    assert!(!reg.is_watched(2));
    let d = reg.begin_dispatch(3, 1).expect("other callback");
    assert_eq!(d.callback, 8);
}

#[test]
fn rewatch_from_own_callback_keeps_new_callback() {
    let mut reg: WatchRegistry<u32> = WatchRegistry::new();
    let pin = Pin::new(6, PinMode::Input);
    assert!(pin.watch(&mut reg, WatchEdge::Rising, 1, true));
    let d = reg.begin_dispatch(6, 1).expect("callback");
    assert!(pin.unwatch(&mut reg).is_some());
    assert!(pin.watch(&mut reg, WatchEdge::Falling, 2, true));
    assert!(!reg.end_dispatch(6, d.callback));
    let d = reg.begin_dispatch(6, 0).expect("new callback");
    assert_eq!(d.callback, 2);
}

#[test]
fn nested_dispatch_of_running_pin_is_skipped() {
    let mut reg: WatchRegistry<u32> = WatchRegistry::new();
    let pin = Pin::new(1, PinMode::Input);
    assert!(pin.watch(&mut reg, WatchEdge::Both, 5, true));
    let d = reg.begin_dispatch(1, 1).expect("callback");
    assert!(reg.begin_dispatch(1, 0).is_none());
    assert!(reg.is_watched(1));
    assert!(reg.end_dispatch(1, d.callback));
    assert!(reg.begin_dispatch(1, 0).is_some());
}

#[test]
fn stale_notification_is_ignored() {
    let mut reg: WatchRegistry<u32> = WatchRegistry::new();
    assert!(reg.begin_dispatch(42, 1).is_none());
    assert!(!reg.end_dispatch(42, 3));
    assert_eq!(reg.len(), 0);
}

#[test]
fn disarm_all_stops_every_watch() {
    let mut reg: WatchRegistry<u32> = WatchRegistry::new();
    for id in [5, 1, 8] {
        assert!(Pin::new(id, PinMode::Input).watch(&mut reg, WatchEdge::Both, id as u32, true));
    }
    let mut pins = reg.watched_pins();
    pins.sort();
    assert_eq!(pins, vec![1, 5, 8]);
    let calls = reg.disarm_all();
    assert_eq!(calls.len(), 3);
    for id in [1, 5, 8] {
        assert!(calls.contains(&HostCall::PinWatchStop { pin: id }));
    }
    assert_eq!(reg.len(), 0);
    assert!(reg.begin_dispatch(5, 1).is_none());
}
