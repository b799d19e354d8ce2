//! Devices: sockets and thermometers, identified by their names.
use vstd::prelude::*;
use vstd::string::*;

verus! {

/// Something that carries an identifying name.
pub trait Named {
    /// The name, as a sequence of characters.
    spec fn name_view(&self) -> Seq<char>;

    fn name(&self) -> (r: &str)
        ensures
            r@ == self.name_view(),
    ;
}

/// Whether two names are the same, character for character.
pub fn same_name(a: &str, b: &str) -> (r: bool)
    ensures
        r == (a@ == b@),
{
    String::from_str(a) == String::from_str(b)
}

/// A named thing that can be plugged into a room.
pub trait Pluggable: Named {

}

/// The line that shows a socket with the given name.
pub open spec fn socket_line(name: Seq<char>) -> Seq<char> {
    "----> Device: Socket["@ + name + "]\n"@
}

/// The line that shows a thermometer with the given name.
pub open spec fn thermometer_line(name: Seq<char>) -> Seq<char> {
    "----> Device: Thermometer["@ + name + "]\n"@
}

/// A smart socket.
#[derive(Debug, Clone)]
pub struct SmartSocket {
    name: String,
}

impl SmartSocket {
    pub fn new(name: String) -> (r: Self)
        ensures
            r.name_view() == name@,
    {
        Self { name }
    }

    /// The line that shows this socket in a report.
    pub fn display(&self) -> (r: String)
        ensures
            r@ == socket_line(self.name_view()),
    {
        let mut out = String::from_str("----> Device: Socket[");
        out.append(self.name.as_str());
        out.append("]\n");
        out
    }
}

impl Named for SmartSocket {
    closed spec fn name_view(&self) -> Seq<char> {
        self.name@
    }

    fn name(&self) -> (r: &str) {
        self.name.as_str()
    }
}

impl Pluggable for SmartSocket {

}

/// A smart thermometer.
#[derive(Debug, Clone)]
pub struct SmartThermometer {
    name: String,
}

impl SmartThermometer {
    pub fn new(name: String) -> (r: Self)
        ensures
            r.name_view() == name@,
    {
        Self { name }
    }

    /// The line that shows this thermometer in a report.
    pub fn display(&self) -> (r: String)
        ensures
            r@ == thermometer_line(self.name_view()),
    {
        let mut out = String::from_str("----> Device: Thermometer[");
        out.append(self.name.as_str());
        out.append("]\n");
        out
    }
}

impl Named for SmartThermometer {
    closed spec fn name_view(&self) -> Seq<char> {
        self.name@
    }

    fn name(&self) -> (r: &str) {
        self.name.as_str()
    }
}

impl Pluggable for SmartThermometer {

}

/// Any device that a room can hold.
#[derive(Debug, Clone)]
pub enum Device {
    Socket(SmartSocket),
    Thermometer(SmartThermometer),
}

impl Device {
    /// The line that shows this device in a report.
    pub open spec fn line(&self) -> Seq<char> {
        match self {
            Device::Socket(s) => socket_line(s.name_view()),
            Device::Thermometer(t) => thermometer_line(t.name_view()),
        }
    }

    pub fn display(&self) -> (r: String)
        ensures
            r@ == self.line(),
    {
        match self {
            Device::Socket(s) => s.display(),
            Device::Thermometer(t) => t.display(),
        }
    }
}

impl Named for Device {
    open spec fn name_view(&self) -> Seq<char> {
        match self {
            Device::Socket(s) => s.name_view(),
            Device::Thermometer(t) => t.name_view(),
        }
    }

    fn name(&self) -> (r: &str) {
        match self {
            Device::Socket(s) => s.name(),
            Device::Thermometer(t) => t.name(),
        }
    }
}

impl Pluggable for Device {

}

} // verus!
