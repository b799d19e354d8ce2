//! Rooms: named, ordered collections of devices with distinct names.
use std::sync::Arc;
use vstd::prelude::*;
use vstd::string::*;

use crate::device::{same_name, Device, Named, Pluggable};
use crate::error::HomeError;

verus! {

/// The line that shows a room with the given name.
pub open spec fn room_line(name: Seq<char>) -> Seq<char> {
    "--> Room: "@ + name + "\n"@
}

/// A room, holding its devices in the order they were plugged in.
#[derive(Clone)]
pub struct SmartRoom {
    name: String,
    devices: Vec<Arc<Device>>,
}

impl SmartRoom {
    /// The devices of the room, in the order they were plugged in.
    pub closed spec fn devices_view(&self) -> Seq<Device> {
        self.devices@.map_values(|d: Arc<Device>| *d)
    }

    /// The names of the devices of the room, in order.
    pub open spec fn device_names(&self) -> Seq<Seq<char>> {
        self.devices_view().map_values(|d: Device| d.name_view())
    }

    /// Some device of the room has this name.
    pub open spec fn has_device(&self, name: Seq<char>) -> bool {
        exists|i: int| 0 <= i < self.devices_view().len() && #[trigger] self.devices_view()[i].name_view() == name
    }

    /// No two devices of the room share a name.
    pub open spec fn wf(&self) -> bool {
        forall|i: int, j: int|
            0 <= i < j < self.devices_view().len() ==> #[trigger] self.devices_view()[i].name_view()
                != #[trigger] self.devices_view()[j].name_view()
    }

    /// What one call of `plug` does: a room that already holds a device of
    /// that name is left as it was and the call fails; any other room gets
    /// the device appended and the call succeeds.
    pub open spec fn plug_step(before: SmartRoom, device: Device, after: SmartRoom, ok: bool) -> bool {
        &&& after.name_view() == before.name_view()
        &&& before.has_device(device.name_view()) ==> !ok && after == before
        &&& !before.has_device(device.name_view()) ==> ok && after.devices_view()
            == before.devices_view().push(device)
    }

    /// Plugging devices of a name that the room already holds, any number
    /// of times in a row, fails every time and never changes the room.
    pub proof fn plug_retries_change_nothing(
        rooms: Seq<SmartRoom>,
        devices: Seq<Device>,
        results: Seq<bool>,
    )
        requires
            rooms.len() == devices.len() + 1,
            results.len() == devices.len(),
            forall|i: int| 0 <= i < devices.len() ==> (#[trigger] devices[i]).name_view() == devices[0].name_view(),
            devices.len() > 0 ==> rooms[0].has_device(devices[0].name_view()),
            forall|i: int|
                0 <= i < devices.len() ==> Self::plug_step(
                    #[trigger] rooms[i],
                    devices[i],
                    rooms[i + 1],
                    results[i],
                ),
        ensures
            forall|i: int| 0 <= i < results.len() ==> !(#[trigger] results[i]),
            forall|i: int| 0 <= i < rooms.len() ==> #[trigger] rooms[i] == rooms[0],
        decreases devices.len(),
    {
        if devices.len() > 0 {
            let n = devices.len() - 1;
            let shorter_devices = devices.take(n);
            let shorter_results = results.take(n);
            let shorter_rooms = rooms.take(n + 1);
            assert forall|i: int| 0 <= i < n implies Self::plug_step(
                #[trigger] shorter_rooms[i],
                shorter_devices[i],
                shorter_rooms[i + 1],
                shorter_results[i],
            ) by {
                assert(Self::plug_step(rooms[i], devices[i], rooms[i + 1], results[i]));
            }
            assert forall|i: int| 0 <= i < n implies (#[trigger] shorter_devices[i]).name_view()
                == shorter_devices[0].name_view() by {
                assert(devices[i].name_view() == devices[0].name_view());
            }
            Self::plug_retries_change_nothing(shorter_rooms, shorter_devices, shorter_results);
            assert(shorter_rooms[n] == rooms[0]);
            assert(Self::plug_step(rooms[n], devices[n], rooms[n + 1], results[n]));
            assert(devices[n].name_view() == devices[0].name_view());
            assert forall|i: int| 0 <= i < results.len() implies !(#[trigger] results[i]) by {
                if i < n {
                    assert(!shorter_results[i]);
                }
            }
            assert forall|i: int| 0 <= i < rooms.len() implies #[trigger] rooms[i] == rooms[0] by {
                if i <= n {
                    assert(shorter_rooms[i] == rooms[0]);
                }
            }
        }
    }

    pub fn new(name: String) -> (r: Self)
        ensures
            r.name_view() == name@,
            r.devices_view() == Seq::<Device>::empty(),
            r.wf(),
    {
        Self { name, devices: Vec::new() }
    }

    /// Appends the device unless one of the same name is already plugged in.
    pub fn plug(&mut self, device: Arc<Device>) -> (r: Result<(), HomeError>)
        ensures
            final(self).name_view() == old(self).name_view(),
            old(self).has_device(device.name_view()) ==> {
                &&& r matches Err(HomeError::DuplicateDevice(n))
                &&& n@ == device.name_view()
                &&& *final(self) == *old(self)
            },
            !old(self).has_device(device.name_view()) ==> {
                &&& r is Ok
                &&& final(self).devices_view() == old(self).devices_view().push(*device)
            },
            Self::plug_step(*old(self), *device, *final(self), r is Ok),
            old(self).wf() ==> final(self).wf(),
    {
        if self.is_connected(&*device) {
            let name = String::from_str(device.name());
            return Err(HomeError::DuplicateDevice(name));
        }
        let ghost before = self.devices_view();
        self.devices.push(device);
        assert(self.devices_view() =~= before.push(*device));
        Ok(())
    }

    /// Whether some device of the room has the same name as the given one.
    pub fn is_connected<D: Pluggable>(&self, device: &D) -> (r: bool)
        ensures
            r == self.has_device(device.name_view()),
    {
        let name = device.name();
        let mut i: usize = 0;
        while i < self.devices.len()
            invariant
                name@ == device.name_view(),
                i <= self.devices@.len(),
                forall|k: int| 0 <= k < i ==> #[trigger] self.devices_view()[k].name_view() != name@,
            decreases self.devices@.len() - i,
        {
            let other = self.devices[i].name();
            if same_name(other, name) {
                assert(self.devices_view()[i as int].name_view() == name@);
                return true;
            }
            i = i + 1;
        }
        false
    }

    /// The names of the devices, in the order they were plugged in.
    pub fn devices(&self) -> (r: Vec<String>)
        ensures
            r@.map_values(|s: String| s@) == self.device_names(),
    {
        let mut out: Vec<String> = Vec::new();
        let mut i: usize = 0;
        while i < self.devices.len()
            invariant
                i <= self.devices@.len(),
                out@.len() == i,
                forall|k: int| 0 <= k < i ==> #[trigger] out@[k]@ == self.device_names()[k],
            decreases self.devices@.len() - i,
        {
            let name = String::from_str(self.devices[i].name());
            out.push(name);
            i = i + 1;
        }
        assert(out@.map_values(|s: String| s@) =~= self.device_names());
        out
    }

    /// The line that shows this room in a report.
    pub fn display(&self) -> (r: String)
        ensures
            r@ == room_line(self.name_view()),
    {
        let mut out = String::from_str("--> Room: ");
        out.append(self.name.as_str());
        out.append("\n");
        out
    }
}

impl Named for SmartRoom {
    closed spec fn name_view(&self) -> Seq<char> {
        self.name@
    }

    fn name(&self) -> (r: &str) {
        self.name.as_str()
    }
}

} // verus!
