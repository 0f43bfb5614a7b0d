//! The events of the World Cube Association.
use vstd::prelude::*;

verus! {

/// An official event, as the records of the World Cube Association list them.
#[derive(Debug, Clone, Copy, PartialEq, Eq, Hash, Structural)]
pub enum Event {
    Cube2,
    Cube3,
    Cube4,
    Cube5,
    Cube6,
    Cube7,
    Blind3,
    Blind4,
    Blind5,
    Multiblind,
    FewestMoves,
    OneHanded,
    Clock,
    Megaminx,
    Pyraminx,
    Skewb,
    Square1,
}

impl Default for Event {
    fn default() -> (event: Event)
        ensures
            event == Event::Cube3,
    {
        Event::Cube3
    }
}

impl Event {
    pub const ALL: [Event; 17] = [
        Event::Cube2,
        Event::Cube3,
        Event::Cube4,
        Event::Cube5,
        Event::Cube6,
        Event::Cube7,
        Event::Blind3,
        Event::Blind4,
        Event::Blind5,
        Event::Multiblind,
        Event::FewestMoves,
        Event::OneHanded,
        Event::Clock,
        Event::Megaminx,
        Event::Pyraminx,
        Event::Skewb,
        Event::Square1,
    ];

    /// The id of the event with the World Cube Association, as in the address of its records.
    pub fn str_id(self) -> (text: &'static str)
        ensures
            text@ == self.spec_str_id(),
    {
        match self {
            Event::Cube2 => "222",
            Event::Cube3 => "333",
            Event::Cube4 => "444",
            Event::Cube5 => "555",
            Event::Cube6 => "666",
            Event::Cube7 => "777",
            Event::Blind3 => "333bf",
            Event::Blind4 => "444bf",
            Event::Blind5 => "555bf",
            Event::Multiblind => "333mbf",
            Event::FewestMoves => "333fm",
            Event::OneHanded => "333oh",
            Event::Clock => "clock",
            Event::Megaminx => "minx",
            Event::Pyraminx => "pyram",
            Event::Skewb => "skewb",
            Event::Square1 => "sq-1",
        }
    }

    /// The id of the event with the World Cube Association, as in the address of its records.
    pub open spec fn spec_str_id(self) -> Seq<char> {
        match self {
            Event::Cube2 => "222"@,
            Event::Cube3 => "333"@,
            Event::Cube4 => "444"@,
            Event::Cube5 => "555"@,
            Event::Cube6 => "666"@,
            Event::Cube7 => "777"@,
            Event::Blind3 => "333bf"@,
            Event::Blind4 => "444bf"@,
            Event::Blind5 => "555bf"@,
            Event::Multiblind => "333mbf"@,
            Event::FewestMoves => "333fm"@,
            Event::OneHanded => "333oh"@,
            Event::Clock => "clock"@,
            Event::Megaminx => "minx"@,
            Event::Pyraminx => "pyram"@,
            Event::Skewb => "skewb"@,
            Event::Square1 => "sq-1"@,
        }
    }

    /// The full name of the event, as the World Cube Association has it.
    pub fn full_name(self) -> (text: &'static str)
        ensures
            text@ == self.spec_full_name(),
    {
        match self {
            Event::Cube2 => "2x2x2 Cube",
            Event::Cube3 => "3x3x3 Cube",
            Event::Cube4 => "4x4x4 Cube",
            Event::Cube5 => "5x5x5 Cube",
            Event::Cube6 => "6x6x6 Cube",
            Event::Cube7 => "7x7x7 Cube",
            Event::Blind3 => "3x3x3 Blindfolded",
            Event::Blind4 => "4x4x4 Blindfolded",
            Event::Blind5 => "5x5x5 Blindfolded",
            Event::Multiblind => "3x3x3 Multi-Blind",
            Event::FewestMoves => "3x3x3 Fewest Moves",
            Event::OneHanded => "3x3x3 One-Handed",
            Event::Clock => "Clock",
            Event::Megaminx => "Megaminx",
            Event::Pyraminx => "Pyraminx",
            Event::Skewb => "Skewb",
            Event::Square1 => "Square-1",
        }
    }

    /// The full name of the event, as the World Cube Association has it.
    pub open spec fn spec_full_name(self) -> Seq<char> {
        match self {
            Event::Cube2 => "2x2x2 Cube"@,
            Event::Cube3 => "3x3x3 Cube"@,
            Event::Cube4 => "4x4x4 Cube"@,
            Event::Cube5 => "5x5x5 Cube"@,
            Event::Cube6 => "6x6x6 Cube"@,
            Event::Cube7 => "7x7x7 Cube"@,
            Event::Blind3 => "3x3x3 Blindfolded"@,
            Event::Blind4 => "4x4x4 Blindfolded"@,
            Event::Blind5 => "5x5x5 Blindfolded"@,
            Event::Multiblind => "3x3x3 Multi-Blind"@,
            Event::FewestMoves => "3x3x3 Fewest Moves"@,
            Event::OneHanded => "3x3x3 One-Handed"@,
            Event::Clock => "Clock"@,
            Event::Megaminx => "Megaminx"@,
            Event::Pyraminx => "Pyraminx"@,
            Event::Skewb => "Skewb"@,
            Event::Square1 => "Square-1"@,
        }
    }

    /// A short name that is in common use for the event. It is not an official name.
    pub fn short_name(self) -> (text: &'static str)
        ensures
            text@ == self.spec_short_name(),
    {
        match self {
            Event::Cube2 => "2x2",
            Event::Cube3 => "3x3",
            Event::Cube4 => "4x4",
            Event::Cube5 => "5x5",
            Event::Cube6 => "6x6",
            Event::Cube7 => "7x7",
            Event::Blind3 => "3BLD",
            Event::Blind4 => "4BLD",
            Event::Blind5 => "5BLD",
            Event::Multiblind => "Multiblind",
            Event::FewestMoves => "FM",
            Event::OneHanded => "OH",
            Event::Clock => "Clock",
            Event::Megaminx => "Megaminx",
            Event::Pyraminx => "Pyraminx",
            Event::Skewb => "Skewb",
            Event::Square1 => "Square-1",
        }
    }

    /// A short name that is in common use for the event. It is not an official name.
    pub open spec fn spec_short_name(self) -> Seq<char> {
        match self {
            Event::Cube2 => "2x2"@,
            Event::Cube3 => "3x3"@,
            Event::Cube4 => "4x4"@,
            Event::Cube5 => "5x5"@,
            Event::Cube6 => "6x6"@,
            Event::Cube7 => "7x7"@,
            Event::Blind3 => "3BLD"@,
            Event::Blind4 => "4BLD"@,
            Event::Blind5 => "5BLD"@,
            Event::Multiblind => "Multiblind"@,
            Event::FewestMoves => "FM"@,
            Event::OneHanded => "OH"@,
            Event::Clock => "Clock"@,
            Event::Megaminx => "Megaminx"@,
            Event::Pyraminx => "Pyraminx"@,
            Event::Skewb => "Skewb"@,
            Event::Square1 => "Square-1"@,
        }
    }

    /// The number of the event: its place in [`Event::ALL`].
    pub fn id(self) -> (id: u8)
        ensures
            id as int == self.spec_id(),
            id < 17,
            Event::ALL[id as int] == self,
    {
        match self {
            Event::Cube2 => 0,
            Event::Cube3 => 1,
            Event::Cube4 => 2,
            Event::Cube5 => 3,
            Event::Cube6 => 4,
            Event::Cube7 => 5,
            Event::Blind3 => 6,
            Event::Blind4 => 7,
            Event::Blind5 => 8,
            Event::Multiblind => 9,
            Event::FewestMoves => 10,
            Event::OneHanded => 11,
            Event::Clock => 12,
            Event::Megaminx => 13,
            Event::Pyraminx => 14,
            Event::Skewb => 15,
            Event::Square1 => 16,
        }
    }

    /// The number of the event: its place in [`Event::ALL`].
    pub open spec fn spec_id(self) -> int {
        match self {
            Event::Cube2 => 0,
            Event::Cube3 => 1,
            Event::Cube4 => 2,
            Event::Cube5 => 3,
            Event::Cube6 => 4,
            Event::Cube7 => 5,
            Event::Blind3 => 6,
            Event::Blind4 => 7,
            Event::Blind5 => 8,
            Event::Multiblind => 9,
            Event::FewestMoves => 10,
            Event::OneHanded => 11,
            Event::Clock => 12,
            Event::Megaminx => 13,
            Event::Pyraminx => 14,
            Event::Skewb => 15,
            Event::Square1 => 16,
        }
    }

    /// The event with a given number, if there is one.
    pub fn from_id(id: u8) -> (event: Option<Event>)
        ensures
            event.is_some() == (id < 17),
            event matches Some(e) ==> e.spec_id() == id as int,
    {
        if id < 17 {
            let all = Event::ALL;
            Some(all[id as usize])
        } else {
            None
        }
    }
}

} // verus!
