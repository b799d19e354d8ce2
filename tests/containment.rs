use std::sync::Arc;

use smart_house::{Device, HomeError, Named, SmartHouse, SmartRoom, SmartSocket, SmartThermometer};

fn room_names(house: &SmartHouse) -> Vec<String> {
    house.get_rooms().iter().map(|r| r.name().to_string()).collect()
}

#[test]
fn construct_house() {
    let mut hell = SmartHouse::new("hell".to_string());
    let limb = SmartRoom::new("limb".to_string());
    let lust = SmartRoom::new("lust".to_string());

    assert!(!hell.add(limb).is_err(), "Limb should not be added before");
    assert!(!hell.add(lust).is_err(), "Lust should not be added before");

    let limb = SmartRoom::new("limb".to_string());
    assert!(hell.add(limb).is_err(), "Limb has already been added")
}

#[test]
fn plug_devices() {
    let mut boiler = SmartRoom::new("Boiler".to_string());

    let thermo = SmartThermometer::new("Thermometer 1".to_string());
    let socket = SmartSocket::new("Main socket".to_string());

    assert!(
        !boiler.plug(Arc::new(Device::Thermometer(thermo))).is_err(),
        "Thermometer successfully connected"
    );
    assert!(
        !boiler.plug(Arc::new(Device::Socket(socket))).is_err(),
        "Socket successfully connected"
    );

    let socket = SmartSocket::new("Main socket".to_string());
    assert!(
        boiler.plug(Arc::new(Device::Socket(socket))).is_err(),
        "Socket already connected"
    );
}

#[test]
fn duplicate_room_keeps_rooms() {
    let mut hell = SmartHouse::new("hell".to_string());
    hell.add(SmartRoom::new("limb".to_string())).unwrap();
    hell.add(SmartRoom::new("lust".to_string())).unwrap();
    let err = hell.add(SmartRoom::new("limb".to_string())).unwrap_err();
    assert!(matches!(&err, HomeError::DuplicateRoom(n) if n == "limb"));
    assert_eq!(err.message(), "room limb already constructed");
    assert_eq!(room_names(&hell), vec!["limb".to_string(), "lust".to_string()]);
}

#[test]
fn duplicate_device_keeps_devices() {
    let mut boiler = SmartRoom::new("Boiler".to_string());
    let thermo = SmartThermometer::new("Thermometer 1".to_string());
    let socket = SmartSocket::new("Main socket".to_string());
    boiler.plug(Arc::new(Device::Thermometer(thermo))).unwrap();
    boiler.plug(Arc::new(Device::Socket(socket))).unwrap();
    let again = SmartSocket::new("Main socket".to_string());
    let err = boiler.plug(Arc::new(Device::Socket(again))).unwrap_err();
    assert!(matches!(&err, HomeError::DuplicateDevice(n) if n == "Main socket"));
    assert_eq!(err.message(), "Device with name Main socket already plugged");
    assert_eq!(
        boiler.devices(),
        vec!["Thermometer 1".to_string(), "Main socket".to_string()]
    );
}

#[test]
fn duplicate_name_across_kinds_is_refused() {
    let mut room = SmartRoom::new("Hall".to_string());
    room.plug(Arc::new(Device::Socket(SmartSocket::new("X".to_string()))))
        .unwrap();
    let thermo = SmartThermometer::new("X".to_string());
    assert!(room.is_connected(&thermo));
    assert!(room.plug(Arc::new(Device::Thermometer(thermo))).is_err());
    assert_eq!(room.devices(), vec!["X".to_string()]);
}

#[test]
fn repeated_failures_change_nothing() {
    let mut room = SmartRoom::new("Hall".to_string());
    room.plug(Arc::new(Device::Socket(SmartSocket::new("A".to_string()))))
        .unwrap();
    let mut house = SmartHouse::new("H".to_string());
    house.add(SmartRoom::new("Hall".to_string())).unwrap();
    for _ in 0..3 {
        let dup = Device::Socket(SmartSocket::new("A".to_string()));
        assert!(room.plug(Arc::new(dup)).is_err());
        assert!(house.add(SmartRoom::new("Hall".to_string())).is_err());
    }
    assert_eq!(room.devices(), vec!["A".to_string()]);
    assert_eq!(room_names(&house), vec!["Hall".to_string()]);
}

#[test]
fn same_device_name_in_two_rooms() {
    let mut a = SmartRoom::new("A".to_string());
    let mut b = SmartRoom::new("B".to_string());
    assert!(a.plug(Arc::new(Device::Socket(SmartSocket::new("S".to_string())))).is_ok());
    assert!(b.plug(Arc::new(Device::Socket(SmartSocket::new("S".to_string())))).is_ok());
    assert_eq!(a.devices(), b.devices());
}

#[test]
fn is_connected_goes_by_name() {
    let mut room = SmartRoom::new("Kitchen".to_string());
    assert!(!room.is_connected(&SmartSocket::new("S".to_string())));
    room.plug(Arc::new(Device::Socket(SmartSocket::new("S".to_string()))))
        .unwrap();
    assert!(room.is_connected(&SmartSocket::new("S".to_string())));
    assert!(!room.is_connected(&SmartSocket::new("T".to_string())));
}

#[test]
fn empty_room_and_house() {
    let room = SmartRoom::new("Empty".to_string());
    assert!(room.devices().is_empty());
    assert_eq!(room.name(), "Empty");
    let house = SmartHouse::new("Nothing".to_string());
    assert!(house.get_rooms().is_empty());
}

#[test]
fn displays() {
    assert_eq!(
        SmartSocket::new("S1".to_string()).display(),
        "----> Device: Socket[S1]\n"
    );
    assert_eq!(
        SmartThermometer::new("T1".to_string()).display(),
        "----> Device: Thermometer[T1]\n"
    );
    assert_eq!(
        Device::Thermometer(SmartThermometer::new("T2".to_string())).display(),
        "----> Device: Thermometer[T2]\n"
    );
    assert_eq!(Device::Socket(SmartSocket::new("S2".to_string())).name(), "S2");
    assert_eq!(SmartRoom::new("Boiler".to_string()).display(), "--> Room: Boiler\n");
    assert_eq!(SmartHouse::new("H".to_string()).display(), "-> House: H\n");
}
