//! A small model of a smart home: devices plugged into rooms, rooms added to
//! a house, and reports that say where given devices are installed.

pub mod device;
pub mod error;
pub mod room;
pub mod house;
pub mod report;

pub use device::{Device, Named, Pluggable, SmartSocket, SmartThermometer};
pub use error::HomeError;
pub use house::SmartHouse;
pub use report::{BorrowingDeviceInfoProvider, OwningDeviceInfoProvider, Reportable};
pub use room::SmartRoom;
