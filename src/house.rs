//! Houses: named, ordered collections of rooms with distinct names.
use vstd::prelude::*;
use vstd::string::*;

use crate::device::{same_name, Named};
use crate::error::HomeError;
use crate::report::Reportable;
use crate::room::SmartRoom;

verus! {

/// The line that shows a house with the given name.
pub open spec fn house_line(name: Seq<char>) -> Seq<char> {
    "-> House: "@ + name + "\n"@
}

/// A house, holding its rooms in the order they were added.
#[derive(Clone)]
pub struct SmartHouse {
    name: String,
    rooms: Vec<SmartRoom>,
}

impl SmartHouse {
    /// The name of the house.
    pub closed spec fn house_name(&self) -> Seq<char> {
        self.name@
    }

    /// The rooms of the house, in the order they were added.
    pub closed spec fn rooms_view(&self) -> Seq<SmartRoom> {
        self.rooms@
    }

    /// The names of the rooms, in order.
    pub open spec fn room_names(&self) -> Seq<Seq<char>> {
        self.rooms_view().map_values(|r: SmartRoom| r.name_view())
    }

    /// Some room of the house has this name.
    pub open spec fn has_room(&self, name: Seq<char>) -> bool {
        exists|i: int| 0 <= i < self.rooms_view().len() && #[trigger] self.rooms_view()[i].name_view() == name
    }

    /// No two rooms of the house share a name.
    pub open spec fn wf(&self) -> bool {
        forall|i: int, j: int|
            0 <= i < j < self.rooms_view().len() ==> #[trigger] self.rooms_view()[i].name_view()
                != #[trigger] self.rooms_view()[j].name_view()
    }

    /// What one call of `add` does: a house that already holds a room of
    /// that name is left as it was and the call fails; any other house gets
    /// the room appended and the call succeeds.
    pub open spec fn add_step(before: SmartHouse, room: SmartRoom, after: SmartHouse, ok: bool) -> bool {
        &&& after.house_name() == before.house_name()
        &&& before.has_room(room.name_view()) ==> !ok && after == before
        &&& !before.has_room(room.name_view()) ==> ok && after.rooms_view() == before.rooms_view().push(room)
    }

    /// Adding rooms of a name that the house already holds, any number of
    /// times in a row, fails every time and never changes the house.
    pub proof fn add_retries_change_nothing(
        houses: Seq<SmartHouse>,
        rooms: Seq<SmartRoom>,
        results: Seq<bool>,
    )
        requires
            houses.len() == rooms.len() + 1,
            results.len() == rooms.len(),
            forall|i: int| 0 <= i < rooms.len() ==> (#[trigger] rooms[i]).name_view() == rooms[0].name_view(),
            rooms.len() > 0 ==> houses[0].has_room(rooms[0].name_view()),
            forall|i: int|
                0 <= i < rooms.len() ==> Self::add_step(
                    #[trigger] houses[i],
                    rooms[i],
                    houses[i + 1],
                    results[i],
                ),
        ensures
            forall|i: int| 0 <= i < results.len() ==> !(#[trigger] results[i]),
            forall|i: int| 0 <= i < houses.len() ==> #[trigger] houses[i] == houses[0],
        decreases rooms.len(),
    {
        if rooms.len() > 0 {
            let n = rooms.len() - 1;
            let shorter_rooms = rooms.take(n);
            let shorter_results = results.take(n);
            let shorter_houses = houses.take(n + 1);
            assert forall|i: int| 0 <= i < n implies Self::add_step(
                #[trigger] shorter_houses[i],
                shorter_rooms[i],
                shorter_houses[i + 1],
                shorter_results[i],
            ) by {
                assert(Self::add_step(houses[i], rooms[i], houses[i + 1], results[i]));
            }
            assert forall|i: int| 0 <= i < n implies (#[trigger] shorter_rooms[i]).name_view()
                == shorter_rooms[0].name_view() by {
                assert(rooms[i].name_view() == rooms[0].name_view());
            }
            Self::add_retries_change_nothing(shorter_houses, shorter_rooms, shorter_results);
            assert(shorter_houses[n] == houses[0]);
            assert(Self::add_step(houses[n], rooms[n], houses[n + 1], results[n]));
            assert(rooms[n].name_view() == rooms[0].name_view());
            assert forall|i: int| 0 <= i < results.len() implies !(#[trigger] results[i]) by {
                if i < n {
                    assert(!shorter_results[i]);
                }
            }
            assert forall|i: int| 0 <= i < houses.len() implies #[trigger] houses[i] == houses[0] by {
                if i <= n {
                    assert(shorter_houses[i] == houses[0]);
                }
            }
        }
    }

    pub fn new(name: String) -> (r: Self)
        ensures
            r.house_name() == name@,
            r.rooms_view() == Seq::<SmartRoom>::empty(),
            r.wf(),
    {
        Self { name, rooms: Vec::new() }
    }

    /// Appends the room unless one of the same name is already in the house.
    pub fn add(&mut self, room: SmartRoom) -> (r: Result<(), HomeError>)
        ensures
            final(self).house_name() == old(self).house_name(),
            old(self).has_room(room.name_view()) ==> {
                &&& r matches Err(HomeError::DuplicateRoom(n))
                &&& n@ == room.name_view()
                &&& *final(self) == *old(self)
            },
            !old(self).has_room(room.name_view()) ==> {
                &&& r is Ok
                &&& final(self).rooms_view() == old(self).rooms_view().push(room)
            },
            Self::add_step(*old(self), room, *final(self), r is Ok),
            old(self).wf() ==> final(self).wf(),
    {
        let mut i: usize = 0;
        while i < self.rooms.len()
            invariant
                i <= self.rooms@.len(),
                forall|k: int| 0 <= k < i ==> #[trigger] self.rooms_view()[k].name_view() != room.name_view(),
            decreases self.rooms@.len() - i,
        {
            if same_name(self.rooms[i].name(), room.name()) {
                assert(self.rooms_view()[i as int].name_view() == room.name_view());
                let name = String::from_str(room.name());
                return Err(HomeError::DuplicateRoom(name));
            }
            i = i + 1;
        }
        self.rooms.push(room);
        Ok(())
    }

    /// The rooms, in the order they were added.
    pub fn get_rooms(&self) -> (r: &[SmartRoom])
        ensures
            r@ == self.rooms_view(),
    {
        self.rooms.as_slice()
    }

    /// The line that shows this house in a report.
    pub fn display(&self) -> (r: String)
        ensures
            r@ == house_line(self.house_name()),
    {
        let mut out = String::from_str("-> House: ");
        out.append(self.name.as_str());
        out.append("\n");
        out
    }

    /// Hands the house to a report strategy and returns what it makes.
    pub fn create_report<T: Reportable>(&self, report: T) -> (r: Result<String, HomeError>)
        ensures
            match r {
                Ok(s) => report.report(self) == Some(s@),
                Err(e) => {
                    &&& report.report(self) is None
                    &&& e matches HomeError::LookupFailed(m)
                    &&& m@ == report.failure_message()
                },
            },
    {
        report.make(self)
    }
}

} // verus!
