//! Reports that say in which rooms of a house given devices are installed.
use vstd::prelude::*;
use vstd::string::*;

use crate::device::{same_name, socket_line, thermometer_line, Named, SmartSocket, SmartThermometer};
use crate::error::HomeError;
use crate::house::{house_line, SmartHouse};
use crate::room::{room_line, SmartRoom};

verus! {

/// A way to describe where some devices stand in a house.
pub trait Reportable {
    /// The report on the house, or `None` where the devices cannot be located.
    spec fn report(&self, house: &SmartHouse) -> Option<Seq<char>>;

    /// The message of the failure where the devices cannot be located.
    spec fn failure_message(&self) -> Seq<char>;

    fn make(&self, house: &SmartHouse) -> (r: Result<String, HomeError>)
        ensures
            match r {
                Ok(s) => self.report(house) == Some(s@),
                Err(e) => {
                    &&& self.report(house) is None
                    &&& e matches HomeError::LookupFailed(m)
                    &&& m@ == self.failure_message()
                },
            },
    ;
}

/// The index of the first room, in order, that holds a device of this name.
pub open spec fn first_room_with(rooms: Seq<SmartRoom>, name: Seq<char>) -> Option<int>
    decreases rooms.len(),
{
    if rooms.len() == 0 {
        None
    } else {
        match first_room_with(rooms.drop_last(), name) {
            Some(i) => Some(i),
            None => if rooms.last().has_device(name) {
                Some(rooms.len() - 1)
            } else {
                None
            },
        }
    }
}

/// The index of the last room, in order, that holds a device of this name.
pub open spec fn last_room_with(rooms: Seq<SmartRoom>, name: Seq<char>) -> Option<int>
    decreases rooms.len(),
{
    if rooms.len() == 0 {
        None
    } else if rooms.last().has_device(name) {
        Some(rooms.len() - 1)
    } else {
        last_room_with(rooms.drop_last(), name)
    }
}

/// The lines of a house, a room and a device, separated by spaces.
pub open spec fn placement(house: Seq<char>, room: Seq<char>, device: Seq<char>) -> Seq<char> {
    house + " "@ + room + " "@ + device
}

/// The report of the owning strategy: the house, the first room that holds
/// the socket, and the socket.
pub open spec fn owning_report(house: &SmartHouse, socket: SmartSocket) -> Option<Seq<char>> {
    match first_room_with(house.rooms_view(), socket.name_view()) {
        Some(i) => Some(
            placement(
                house_line(house.house_name()),
                room_line(house.rooms_view()[i].name_view()),
                socket_line(socket.name_view()),
            ),
        ),
        None => None,
    }
}

/// The report of the borrowing strategy, from the last room that holds the
/// socket and the last room that holds the thermometer.
pub open spec fn borrowing_report(
    house: &SmartHouse,
    socket: SmartSocket,
    thermo: SmartThermometer,
) -> Option<Seq<char>> {
    let rooms = house.rooms_view();
    let h = house_line(house.house_name());
    let s = socket_line(socket.name_view());
    let t = thermometer_line(thermo.name_view());
    match (last_room_with(rooms, socket.name_view()), last_room_with(rooms, thermo.name_view())) {
        (None, None) => None,
        (Some(i), Some(j)) => if rooms[i].name_view() == rooms[j].name_view() {
            Some(placement(h, room_line(rooms[i].name_view()), s) + " "@ + t)
        } else {
            Some(placement(h, room_line(rooms[i].name_view()), s) + " "@ + placement(h, room_line(rooms[j].name_view()), t))
        },
        (Some(i), None) => Some(placement(h, room_line(rooms[i].name_view()), s) + " not found "@ + t),
        (None, Some(j)) => Some("not found "@ + s + "\n "@ + placement(h, room_line(rooms[j].name_view()), t)),
    }
}

/// A first room found in a prefix of the rooms is the first room of all of them.
proof fn lemma_first_room_of_prefix(rooms: Seq<SmartRoom>, name: Seq<char>, k: int)
    requires
        0 <= k <= rooms.len(),
        first_room_with(rooms.take(k), name) is Some,
    ensures
        first_room_with(rooms, name) == first_room_with(rooms.take(k), name),
    decreases rooms.len() - k,
{
    if k == rooms.len() {
        assert(rooms.take(k) =~= rooms);
    } else {
        let shorter = rooms.drop_last();
        assert(shorter.take(k) =~= rooms.take(k));
        lemma_first_room_of_prefix(shorter, name, k);
    }
}

/// What the first room with a device of this name is: a room that holds
/// one, before which no room does; and there is none where no room holds one.
pub proof fn lemma_first_room_with(rooms: Seq<SmartRoom>, name: Seq<char>)
    ensures
        match first_room_with(rooms, name) {
            Some(j) => {
                &&& 0 <= j < rooms.len()
                &&& rooms[j].has_device(name)
                &&& forall|k: int| 0 <= k < j ==> !(#[trigger] rooms[k]).has_device(name)
            },
            None => forall|k: int| 0 <= k < rooms.len() ==> !(#[trigger] rooms[k]).has_device(name),
        },
    decreases rooms.len(),
{
    if rooms.len() > 0 {
        let shorter = rooms.drop_last();
        lemma_first_room_with(shorter, name);
        assert forall|k: int| 0 <= k < shorter.len() implies #[trigger] shorter[k] == rooms[k] by {}
        assert(rooms.last() == rooms[rooms.len() - 1]);
        if first_room_with(shorter, name) is None {
            assert forall|k: int| 0 <= k < rooms.len() - 1 implies !(#[trigger] rooms[k]).has_device(name) by {
                assert(!shorter[k].has_device(name));
            }
        } else {
            let j = first_room_with(shorter, name)->Some_0;
            assert(shorter[j] == rooms[j]);
            assert forall|k: int| 0 <= k < j implies !(#[trigger] rooms[k]).has_device(name) by {
                assert(!shorter[k].has_device(name));
            }
        }
    }
}

/// What the last room with a device of this name is: a room that holds
/// one, after which no room does; and there is none where no room holds one.
pub proof fn lemma_last_room_with(rooms: Seq<SmartRoom>, name: Seq<char>)
    ensures
        match last_room_with(rooms, name) {
            Some(j) => {
                &&& 0 <= j < rooms.len()
                &&& rooms[j].has_device(name)
                &&& forall|k: int| j < k < rooms.len() ==> !(#[trigger] rooms[k]).has_device(name)
            },
            None => forall|k: int| 0 <= k < rooms.len() ==> !(#[trigger] rooms[k]).has_device(name),
        },
    decreases rooms.len(),
{
    if rooms.len() > 0 {
        let shorter = rooms.drop_last();
        lemma_last_room_with(shorter, name);
        assert forall|k: int| 0 <= k < shorter.len() implies #[trigger] shorter[k] == rooms[k] by {}
        assert(rooms.last() == rooms[rooms.len() - 1]);
        if !rooms.last().has_device(name) {
            if last_room_with(shorter, name) is None {
                assert forall|k: int| 0 <= k < rooms.len() implies !(#[trigger] rooms[k]).has_device(name) by {
                    if k < rooms.len() - 1 {
                        assert(!shorter[k].has_device(name));
                    }
                }
            } else {
                let j = last_room_with(shorter, name)->Some_0;
                assert(shorter[j] == rooms[j]);
                assert forall|k: int| j < k < rooms.len() implies !(#[trigger] rooms[k]).has_device(name) by {
                    if k < rooms.len() - 1 {
                        assert(!shorter[k].has_device(name));
                    }
                }
            }
        }
    }
}

/// A device that sits in exactly one room of the house is found there by
/// the borrowing strategy's scan.
proof fn lemma_last_room_single(rooms: Seq<SmartRoom>, name: Seq<char>, at: int)
    requires
        0 <= at < rooms.len(),
        rooms[at].has_device(name),
        forall|k: int| 0 <= k < rooms.len() && k != at ==> !(#[trigger] rooms[k]).has_device(name),
    ensures
        last_room_with(rooms, name) == Some(at),
{
    lemma_last_room_with(rooms, name);
}

/// Where a socket sits in two rooms of a house and in no other, the owning
/// strategy reports the room that was added first.
pub proof fn owning_report_cites_first_room(
    house: &SmartHouse,
    socket: SmartSocket,
    first: int,
    second: int,
)
    requires
        0 <= first < second < house.rooms_view().len(),
        house.rooms_view()[first].has_device(socket.name_view()),
        house.rooms_view()[second].has_device(socket.name_view()),
        forall|k: int|
            0 <= k < house.rooms_view().len() && k != first && k != second
                ==> !(#[trigger] house.rooms_view()[k]).has_device(socket.name_view()),
    ensures
        owning_report(house, socket) == Some(
            placement(
                house_line(house.house_name()),
                room_line(house.rooms_view()[first].name_view()),
                socket_line(socket.name_view()),
            ),
        ),
{
    lemma_first_room_with(house.rooms_view(), socket.name_view());
}

/// Where the socket and the thermometer sit in one room and in no other,
/// the borrowing strategy reports the house, that room, the socket and the
/// thermometer on a single line, in that order.
pub proof fn borrowing_report_same_room(
    house: &SmartHouse,
    socket: SmartSocket,
    thermo: SmartThermometer,
    at: int,
)
    requires
        0 <= at < house.rooms_view().len(),
        house.rooms_view()[at].has_device(socket.name_view()),
        house.rooms_view()[at].has_device(thermo.name_view()),
        forall|k: int|
            0 <= k < house.rooms_view().len() && k != at
                ==> !(#[trigger] house.rooms_view()[k]).has_device(socket.name_view()),
        forall|k: int|
            0 <= k < house.rooms_view().len() && k != at
                ==> !(#[trigger] house.rooms_view()[k]).has_device(thermo.name_view()),
    ensures
        borrowing_report(house, socket, thermo) == Some(
            placement(
                house_line(house.house_name()),
                room_line(house.rooms_view()[at].name_view()),
                socket_line(socket.name_view()),
            ) + " "@ + thermometer_line(thermo.name_view()),
        ),
{
    lemma_last_room_single(house.rooms_view(), socket.name_view(), at);
    lemma_last_room_single(house.rooms_view(), thermo.name_view(), at);
}

/// Where the socket sits in one room only and the thermometer in another
/// room only, the borrowing strategy reports two segments, each naming the
/// house, a room and a device: the socket's first, then the thermometer's.
pub proof fn borrowing_report_two_rooms(
    house: &SmartHouse,
    socket: SmartSocket,
    thermo: SmartThermometer,
    socket_at: int,
    thermo_at: int,
)
    requires
        house.wf(),
        0 <= socket_at < house.rooms_view().len(),
        0 <= thermo_at < house.rooms_view().len(),
        socket_at != thermo_at,
        house.rooms_view()[socket_at].has_device(socket.name_view()),
        house.rooms_view()[thermo_at].has_device(thermo.name_view()),
        forall|k: int|
            0 <= k < house.rooms_view().len() && k != socket_at
                ==> !(#[trigger] house.rooms_view()[k]).has_device(socket.name_view()),
        forall|k: int|
            0 <= k < house.rooms_view().len() && k != thermo_at
                ==> !(#[trigger] house.rooms_view()[k]).has_device(thermo.name_view()),
    ensures
        borrowing_report(house, socket, thermo) == Some(
            placement(
                house_line(house.house_name()),
                room_line(house.rooms_view()[socket_at].name_view()),
                socket_line(socket.name_view()),
            ) + " "@ + placement(
                house_line(house.house_name()),
                room_line(house.rooms_view()[thermo_at].name_view()),
                thermometer_line(thermo.name_view()),
            ),
        ),
{
    let rooms = house.rooms_view();
    lemma_last_room_single(rooms, socket.name_view(), socket_at);
    lemma_last_room_single(rooms, thermo.name_view(), thermo_at);
    if socket_at < thermo_at {
        assert(rooms[socket_at].name_view() != rooms[thermo_at].name_view());
    } else {
        assert(rooms[thermo_at].name_view() != rooms[socket_at].name_view());
    }
}

/// Where the socket is in some room and the thermometer in none, the
/// borrowing strategy reports the socket's room and then that the
/// thermometer was not found.
pub proof fn borrowing_report_thermometer_missing(
    house: &SmartHouse,
    socket: SmartSocket,
    thermo: SmartThermometer,
    at: int,
)
    requires
        0 <= at < house.rooms_view().len(),
        house.rooms_view()[at].has_device(socket.name_view()),
        forall|k: int|
            0 <= k < house.rooms_view().len() ==> !(#[trigger] house.rooms_view()[k]).has_device(
                thermo.name_view(),
            ),
    ensures
        exists|j: int|
            0 <= j < house.rooms_view().len() && house.rooms_view()[j].has_device(socket.name_view())
                && borrowing_report(house, socket, thermo) == Some(
                placement(
                    house_line(house.house_name()),
                    room_line((#[trigger] house.rooms_view()[j]).name_view()),
                    socket_line(socket.name_view()),
                ) + " not found "@ + thermometer_line(thermo.name_view()),
            ),
{
    let rooms = house.rooms_view();
    lemma_last_room_with(rooms, socket.name_view());
    lemma_last_room_with(rooms, thermo.name_view());
    let j = last_room_with(rooms, socket.name_view())->Some_0;
    assert(rooms[j].has_device(socket.name_view()));
}

/// Where neither the socket nor the thermometer is in any room, the
/// borrowing strategy has no report.
pub proof fn borrowing_report_none_found(
    house: &SmartHouse,
    socket: SmartSocket,
    thermo: SmartThermometer,
)
    requires
        forall|k: int|
            0 <= k < house.rooms_view().len() ==> !(#[trigger] house.rooms_view()[k]).has_device(
                socket.name_view(),
            ),
        forall|k: int|
            0 <= k < house.rooms_view().len() ==> !(#[trigger] house.rooms_view()[k]).has_device(
                thermo.name_view(),
            ),
    ensures
        borrowing_report(house, socket, thermo) is None,
{
    lemma_last_room_with(house.rooms_view(), socket.name_view());
    lemma_last_room_with(house.rooms_view(), thermo.name_view());
}

/// Appends a space and then the given text.
fn push_spaced(out: &mut String, part: &str)
    ensures
        final(out)@ == old(out)@ + " "@ + part@,
{
    out.append(" ");
    out.append(part);
}

/// The house, its room and the device, each shown on its own line.
fn placement_string(house: &SmartHouse, room: &SmartRoom, device: &str) -> (r: String)
    ensures
        r@ == placement(house_line(house.house_name()), room_line(room.name_view()), device@),
{
    let mut out = house.display();
    let room_text = room.display();
    push_spaced(&mut out, room_text.as_str());
    push_spaced(&mut out, device);
    out
}

/// Reports on a socket that it owns.
pub struct OwningDeviceInfoProvider {
    pub socket: SmartSocket,
}

impl Reportable for OwningDeviceInfoProvider {
    open spec fn report(&self, house: &SmartHouse) -> Option<Seq<char>> {
        owning_report(house, self.socket)
    }

    open spec fn failure_message(&self) -> Seq<char> {
        "Device not found"@
    }

    /// Stops at the first room, in order, that holds the socket.
    fn make(&self, house: &SmartHouse) -> (r: Result<String, HomeError>) {
        let rooms = house.get_rooms();
        let ghost name = self.socket.name_view();
        let mut i: usize = 0;
        while i < rooms.len()
            invariant
                rooms@ == house.rooms_view(),
                name == self.socket.name_view(),
                i <= rooms@.len(),
                first_room_with(rooms@.take(i as int), name) is None,
            decreases rooms@.len() - i,
        {
            assert(rooms@.take(i + 1).drop_last() =~= rooms@.take(i as int));
            assert(rooms@.take(i + 1).last() == rooms@[i as int]);
            if rooms[i].is_connected(&self.socket) {
                assert(first_room_with(rooms@.take(i + 1), name) == Some(i as int));
                proof {
                    lemma_first_room_of_prefix(rooms@, name, i + 1);
                }
                let device = self.socket.display();
                return Ok(placement_string(house, &rooms[i], device.as_str()));
            }
            i = i + 1;
        }
        assert(rooms@.take(i as int) =~= rooms@);
        Err(HomeError::LookupFailed(String::from_str("Device not found")))
    }
}

/// Reports on a socket and a thermometer that it borrows.
pub struct BorrowingDeviceInfoProvider<'a, 'b> {
    pub socket: &'a SmartSocket,
    pub thermo: &'b SmartThermometer,
}

/// The position held as an index of the specification.
spec fn as_index(o: Option<usize>) -> Option<int> {
    match o {
        Some(k) => Some(k as int),
        None => None,
    }
}

impl Reportable for BorrowingDeviceInfoProvider<'_, '_> {
    open spec fn report(&self, house: &SmartHouse) -> Option<Seq<char>> {
        borrowing_report(house, *self.socket, *self.thermo)
    }

    open spec fn failure_message(&self) -> Seq<char> {
        "Devices not found"@
    }

    /// Scans every room for each device; where a name is in several rooms,
    /// the last of them counts.
    fn make(&self, house: &SmartHouse) -> (r: Result<String, HomeError>) {
        let rooms = house.get_rooms();
        let ghost socket_name = self.socket.name_view();
        let ghost thermo_name = self.thermo.name_view();
        let mut socket_room: Option<usize> = None;
        let mut thermo_room: Option<usize> = None;
        let mut i: usize = 0;
        while i < rooms.len()
            invariant
                rooms@ == house.rooms_view(),
                socket_name == self.socket.name_view(),
                thermo_name == self.thermo.name_view(),
                i <= rooms@.len(),
                as_index(socket_room) == last_room_with(rooms@.take(i as int), socket_name),
                as_index(thermo_room) == last_room_with(rooms@.take(i as int), thermo_name),
                socket_room matches Some(k) ==> k < i,
                thermo_room matches Some(k) ==> k < i,
            decreases rooms@.len() - i,
        {
            assert(rooms@.take(i + 1).drop_last() =~= rooms@.take(i as int));
            assert(rooms@.take(i + 1).last() == rooms@[i as int]);
            if rooms[i].is_connected(self.socket) {
                socket_room = Some(i);
            }
            if rooms[i].is_connected(self.thermo) {
                thermo_room = Some(i);
            }
            i = i + 1;
        }
        assert(rooms@.take(i as int) =~= rooms@);
        let socket_text = self.socket.display();
        let thermo_text = self.thermo.display();
        match (socket_room, thermo_room) {
            (None, None) => Err(HomeError::LookupFailed(String::from_str("Devices not found"))),
            (Some(s), Some(t)) => {
                let mut out = placement_string(house, &rooms[s], socket_text.as_str());
                if same_name(rooms[s].name(), rooms[t].name()) {
                    push_spaced(&mut out, thermo_text.as_str());
                } else {
                    let second = placement_string(house, &rooms[t], thermo_text.as_str());
                    push_spaced(&mut out, second.as_str());
                }
                Ok(out)
            },
            (Some(s), None) => {
                let mut out = placement_string(house, &rooms[s], socket_text.as_str());
                out.append(" not found ");
                out.append(thermo_text.as_str());
                Ok(out)
            },
            (None, Some(t)) => {
                let mut out = String::from_str("not found ");
                out.append(socket_text.as_str());
                out.append("\n ");
                let found = placement_string(house, &rooms[t], thermo_text.as_str());
                out.append(found.as_str());
                Ok(out)
            },
        }
    }
}

} // verus!
