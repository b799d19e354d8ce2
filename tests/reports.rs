use std::sync::Arc;

use smart_house::{
    BorrowingDeviceInfoProvider, Device, HomeError, OwningDeviceInfoProvider, Reportable,
    SmartHouse, SmartRoom, SmartSocket, SmartThermometer,
};

fn room_with(name: &str, devices: Vec<Device>) -> SmartRoom {
    let mut room = SmartRoom::new(name.to_string());
    for d in devices {
        room.plug(Arc::new(d)).unwrap();
    }
    room
}

fn socket(name: &str) -> SmartSocket {
    SmartSocket::new(name.to_string())
}

fn thermo(name: &str) -> SmartThermometer {
    SmartThermometer::new(name.to_string())
}

#[test]
fn owning_reports_first_room() {
    let mut house = SmartHouse::new("H".to_string());
    house.add(room_with("Empty", vec![])).unwrap();
    house.add(room_with("R1", vec![Device::Socket(socket("S"))])).unwrap();
    house.add(room_with("R2", vec![Device::Socket(socket("S"))])).unwrap();
    let report = OwningDeviceInfoProvider { socket: socket("S") };
    assert_eq!(
        house.create_report(report).unwrap(),
        "-> House: H\n --> Room: R1\n ----> Device: Socket[S]\n"
    );
}

#[test]
fn owning_device_not_found() {
    let mut house = SmartHouse::new("H".to_string());
    house.add(room_with("R1", vec![Device::Thermometer(thermo("S"))])).unwrap();
    let report = OwningDeviceInfoProvider { socket: socket("Other") };
    let err = report.make(&house).unwrap_err();
    assert!(matches!(&err, HomeError::LookupFailed(m) if m == "Device not found"));
    assert_eq!(err.message(), "Device not found");
}

#[test]
fn borrowing_same_room() {
    let s1 = socket("S1");
    let t1 = thermo("T1");
    let mut house = SmartHouse::new("H".to_string());
    house
        .add(room_with("Boiler", vec![Device::Socket(s1.clone()), Device::Thermometer(t1.clone())]))
        .unwrap();
    let report = BorrowingDeviceInfoProvider { socket: &s1, thermo: &t1 };
    assert_eq!(
        house.create_report(report).unwrap(),
        "-> House: H\n --> Room: Boiler\n ----> Device: Socket[S1]\n ----> Device: Thermometer[T1]\n"
    );
}

#[test]
fn borrowing_different_rooms() {
    let s1 = socket("S1");
    let t1 = thermo("T1");
    let mut house = SmartHouse::new("H".to_string());
    house.add(room_with("A", vec![Device::Socket(s1.clone())])).unwrap();
    house.add(room_with("B", vec![Device::Thermometer(t1.clone())])).unwrap();
    let report = BorrowingDeviceInfoProvider { socket: &s1, thermo: &t1 };
    assert_eq!(
        report.make(&house).unwrap(),
        "-> House: H\n --> Room: A\n ----> Device: Socket[S1]\n -> House: H\n --> Room: B\n ----> Device: Thermometer[T1]\n"
    );
}

#[test]
fn borrowing_thermometer_missing() {
    let s1 = socket("S1");
    let t1 = thermo("T1");
    let mut house = SmartHouse::new("H".to_string());
    house.add(room_with("A", vec![Device::Socket(s1.clone())])).unwrap();
    let report = BorrowingDeviceInfoProvider { socket: &s1, thermo: &t1 };
    assert_eq!(
        report.make(&house).unwrap(),
        "-> House: H\n --> Room: A\n ----> Device: Socket[S1]\n not found ----> Device: Thermometer[T1]\n"
    );
}

#[test]
fn borrowing_socket_missing() {
    let s1 = socket("S1");
    let t1 = thermo("T1");
    let mut house = SmartHouse::new("H".to_string());
    house.add(room_with("B", vec![Device::Thermometer(t1.clone())])).unwrap();
    let report = BorrowingDeviceInfoProvider { socket: &s1, thermo: &t1 };
    assert_eq!(
        report.make(&house).unwrap(),
        "not found ----> Device: Socket[S1]\n\n -> House: H\n --> Room: B\n ----> Device: Thermometer[T1]\n"
    );
}

#[test]
fn borrowing_none_found() {
    let s1 = socket("S1");
    let t1 = thermo("T1");
    let mut house = SmartHouse::new("H".to_string());
    house.add(room_with("A", vec![Device::Socket(socket("S2"))])).unwrap();
    let report = BorrowingDeviceInfoProvider { socket: &s1, thermo: &t1 };
    let err = house.create_report(report).unwrap_err();
    assert!(matches!(&err, HomeError::LookupFailed(m) if m == "Devices not found"));
}

#[test]
fn borrowing_empty_house() {
    let s1 = socket("S1");
    let t1 = thermo("T1");
    let house = SmartHouse::new("H".to_string());
    let report = BorrowingDeviceInfoProvider { socket: &s1, thermo: &t1 };
    assert!(report.make(&house).is_err());
}

#[test]
fn borrowing_last_room_wins() {
    let s1 = socket("S1");
    let t1 = thermo("T1");
    let mut house = SmartHouse::new("H".to_string());
    house.add(room_with("A", vec![Device::Socket(socket("S1"))])).unwrap();
    house
        .add(room_with("B", vec![Device::Socket(socket("S1")), Device::Thermometer(t1.clone())]))
        .unwrap();
    let report = BorrowingDeviceInfoProvider { socket: &s1, thermo: &t1 };
    assert_eq!(
        report.make(&house).unwrap(),
        "-> House: H\n --> Room: B\n ----> Device: Socket[S1]\n ----> Device: Thermometer[T1]\n"
    );
}

#[test]
fn create_report_passes_failure_through() {
    let house = SmartHouse::new("H".to_string());
    let report = OwningDeviceInfoProvider { socket: socket("S") };
    let err = house.create_report(report).unwrap_err();
    assert!(matches!(&err, HomeError::LookupFailed(m) if m == "Device not found"));
}
