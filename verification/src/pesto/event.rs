//! Events, official or not, and the sessions of solves within them.
use crate::event::Event;
use vstd::prelude::*;

verus! {

/// A set of solves within an event: the main one, which every event has, or
/// one that the user has made.
#[derive(Debug, Clone)]
pub enum Session {
    Main,
    Custom { name: String, id: usize },
}

impl Session {
    pub open spec fn spec_name(&self) -> Seq<char> {
        match self {
            Session::Main => "main"@,
            Session::Custom { name, .. } => name@,
        }
    }

    pub open spec fn spec_id(&self) -> usize {
        match self {
            Session::Main => 0,
            Session::Custom { id, .. } => *id,
        }
    }

    /// The name of the session; the main session is called `main`.
    pub fn name(&self) -> (name: &str)
        ensures
            name@ == self.spec_name(),
    {
        match self {
            Session::Main => "main",
            Session::Custom { name, .. } => name.as_str(),
        }
    }

    /// The number of the session within its event; the main session is 0.
    pub fn id(&self) -> (id: usize)
        ensures
            id == self.spec_id(),
    {
        match self {
            Session::Main => 0,
            Session::Custom { id, .. } => *id,
        }
    }
}

/// An event that the user has made, which may take its scrambles from an official event.
#[derive(Debug, Clone)]
pub struct CustomEvent {
    pub id: usize,
    pub name: String,
    pub scramble_type: Option<Event>,
}

/// An event, official or made by the user.
#[derive(Debug, Clone)]
pub enum MaybeCustomEvent {
    Official(Event),
    Unofficial(CustomEvent),
}

impl MaybeCustomEvent {
    pub open spec fn spec_scramble_type(&self) -> Option<Event> {
        match self {
            MaybeCustomEvent::Official(event) => Some(*event),
            MaybeCustomEvent::Unofficial(event) => event.scramble_type,
        }
    }

    pub open spec fn spec_short_name(&self) -> Seq<char> {
        match self {
            MaybeCustomEvent::Official(event) => event.spec_short_name(),
            MaybeCustomEvent::Unofficial(event) => event.name@,
        }
    }

    pub open spec fn spec_id(&self) -> int {
        match self {
            MaybeCustomEvent::Official(event) => event.spec_id(),
            MaybeCustomEvent::Unofficial(event) => event.id as int,
        }
    }

    /// The official event whose scrambles the event takes, if any.
    pub fn scramble_type(&self) -> (event: Option<Event>)
        ensures
            event == self.spec_scramble_type(),
    {
        match self {
            MaybeCustomEvent::Official(event) => Some(*event),
            MaybeCustomEvent::Unofficial(event) => event.scramble_type,
        }
    }

    pub fn short_name(&self) -> (name: &str)
        ensures
            name@ == self.spec_short_name(),
    {
        match self {
            MaybeCustomEvent::Official(event) => event.short_name(),
            MaybeCustomEvent::Unofficial(event) => event.name.as_str(),
        }
    }

    /// The number of the event: below 17 for the official events.
    pub fn id(&self) -> (id: usize)
        ensures
            id as int == self.spec_id(),
    {
        match self {
            MaybeCustomEvent::Official(event) => event.id() as usize,
            MaybeCustomEvent::Unofficial(event) => event.id,
        }
    }
}

impl Default for MaybeCustomEvent {
    fn default() -> (event: MaybeCustomEvent)
        ensures
            event == MaybeCustomEvent::Official(Event::Cube3),
    {
        MaybeCustomEvent::Official(Event::Cube3)
    }
}

/// The events that the user has made, and the sessions of every event.
pub struct EventSessionList {
    pub custom_events: Vec<CustomEvent>,
    pub sessions: Vec<Vec<Session>>,
}

impl EventSessionList {
    /// The number of events: the seventeen official ones, and those that the user has made.
    pub fn event_count(&self) -> (n: usize)
        requires
            self.custom_events.len() <= usize::MAX - 17,
        ensures
            n == 17 + self.custom_events.len(),
    {
        17 + self.custom_events.len()
    }

    /// The official events in order, and after them the events that the user has made.
    pub fn events(&self) -> (events: Vec<MaybeCustomEvent>)
        ensures
            events.len() == 17 + self.custom_events.len(),
            forall|k: int| 0 <= k < 17 ==> events[k] == MaybeCustomEvent::Official(Event::ALL[k]),
            forall|k: int|
                0 <= k < self.custom_events.len() ==> #[trigger] events[17 + k]
                    == MaybeCustomEvent::Unofficial(self.custom_events[k]),
    {
        let all = Event::ALL;
        let mut events: Vec<MaybeCustomEvent> = Vec::new();
        let mut k: usize = 0;
        while k < 17
            invariant
                k <= 17,
                events.len() == k,
                all == Event::ALL,
                forall|j: int| 0 <= j < k ==> events[j] == MaybeCustomEvent::Official(Event::ALL[j]),
            decreases 17 - k,
        {
            events.push(MaybeCustomEvent::Official(all[k]));
            k += 1;
        }
        let mut i: usize = 0;
        while i < self.custom_events.len()
            invariant
                i <= self.custom_events.len(),
                events.len() == 17 + i,
                forall|j: int| 0 <= j < 17 ==> events[j] == MaybeCustomEvent::Official(Event::ALL[j]),
                forall|j: int|
                    0 <= j < i ==> #[trigger] events[17 + j] == MaybeCustomEvent::Unofficial(
                        self.custom_events[j],
                    ),
            decreases self.custom_events.len() - i,
        {
            let custom = &self.custom_events[i];
            events.push(
                MaybeCustomEvent::Unofficial(
                    CustomEvent {
                        id: custom.id,
                        name: custom.name.clone(),
                        scramble_type: custom.scramble_type,
                    },
                ),
            );
            i += 1;
        }
        events
    }

    /// The sessions of an event, which must be one that the list has sessions for.
    pub fn sessions_of(&self, event: MaybeCustomEvent) -> (sessions: &Vec<Session>)
        requires
            0 <= event.spec_id() < self.sessions.len(),
        ensures
            *sessions == self.sessions[event.spec_id()],
    {
        &self.sessions[event.id()]
    }
}

} // verus!
