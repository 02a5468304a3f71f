use vstd::prelude::*;

verus! {

/// The kind of a subsession's event.
#[derive(Copy, Clone, Debug, PartialEq, Eq, Structural)]
pub enum EventType {
    Practice,
    Qualify,
    TimeTrial,
    Race,
}

/// The integer that the upstream data and the store use for an event kind.
pub open spec fn event_code(e: EventType) -> int {
    match e {
        EventType::Practice => 2,
        EventType::Qualify => 3,
        EventType::TimeTrial => 4,
        EventType::Race => 5,
    }
}

pub open spec fn event_label(e: EventType) -> Seq<char> {
    match e {
        EventType::Practice => "Practice"@,
        EventType::Qualify => "Qualify"@,
        EventType::TimeTrial => "Time Trial"@,
        EventType::Race => "Race"@,
    }
}

impl EventType {
    /// The event kind with the given code; codes outside 2..=5 are rejected.
    pub fn from_i32(i: i32) -> (r: Result<EventType, &'static str>)
        ensures
            (2 <= i <= 5) <==> r is Ok,
            r matches Ok(e) ==> event_code(e) == i,
    {
        match i {
            2 => Ok(EventType::Practice),
            3 => Ok(EventType::Qualify),
            4 => Ok(EventType::TimeTrial),
            5 => Ok(EventType::Race),
            _ => Err("invalid event type int"),
        }
    }

    pub fn to_db_type(&self) -> (r: i32)
        ensures
            r == event_code(*self),
    {
        match self {
            EventType::Practice => 2,
            EventType::Qualify => 3,
            EventType::TimeTrial => 4,
            EventType::Race => 5,
        }
    }

    pub fn to_nice_string(&self) -> (r: &'static str)
        ensures
            r@ == event_label(*self),
    {
        match self {
            EventType::Practice => "Practice",
            EventType::Qualify => "Qualify",
            EventType::TimeTrial => "Time Trial",
            EventType::Race => "Race",
        }
    }
}

} // verus!
