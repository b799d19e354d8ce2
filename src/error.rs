//! The failures of the operations on rooms, houses and reports.
use vstd::prelude::*;
use vstd::string::*;

verus! {

/// Why an operation failed. Each failure leaves every value as it was.
#[derive(Debug, Clone)]
pub enum HomeError {
    /// A device with this name is already plugged into the room.
    DuplicateDevice(String),
    /// A room with this name is already in the house.
    DuplicateRoom(String),
    /// A report could not locate its devices; the message says which lookup failed.
    LookupFailed(String),
}

impl HomeError {
    /// The human-readable text of the failure.
    pub open spec fn message_view(&self) -> Seq<char> {
        match self {
            HomeError::DuplicateDevice(name) => "Device with name "@ + name@ + " already plugged"@,
            HomeError::DuplicateRoom(name) => "room "@ + name@ + " already constructed"@,
            HomeError::LookupFailed(text) => text@,
        }
    }

    pub fn message(&self) -> (r: String)
        ensures
            r@ == self.message_view(),
    {
        match self {
            HomeError::DuplicateDevice(name) => {
                let mut out = String::from_str("Device with name ");
                out.append(name.as_str());
                out.append(" already plugged");
                out
            },
            HomeError::DuplicateRoom(name) => {
                let mut out = String::from_str("room ");
                out.append(name.as_str());
                out.append(" already constructed");
                out
            },
            HomeError::LookupFailed(text) => text.clone(),
        }
    }
}

} // verus!
