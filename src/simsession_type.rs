use vstd::prelude::*;

verus! {

/// The kind of a simsession.
#[derive(Copy, Clone, Debug, PartialEq, Eq, Structural)]
pub enum SimsessionType {
    OpenPractice,
    LoneQualifying,
    OpenQualifying,
    Race,
}

/// The integer that the upstream data and the store use for a simsession kind.
pub open spec fn simsession_code(s: SimsessionType) -> int {
    match s {
        SimsessionType::OpenPractice => 3,
        SimsessionType::LoneQualifying => 4,
        SimsessionType::OpenQualifying => 5,
        SimsessionType::Race => 6,
    }
}

impl SimsessionType {
    /// The simsession kind with the given code; codes outside 3..=6 are rejected.
    pub fn from_i32(i: i32) -> (r: Result<SimsessionType, &'static str>)
        ensures
            (3 <= i <= 6) <==> r is Ok,
            r matches Ok(s) ==> simsession_code(s) == i,
    {
        match i {
            3 => Ok(SimsessionType::OpenPractice),
            4 => Ok(SimsessionType::LoneQualifying),
            5 => Ok(SimsessionType::OpenQualifying),
            6 => Ok(SimsessionType::Race),
            _ => Err("invalid simsession type int"),
        }
    }

    pub fn to_db_type(&self) -> (r: i32)
        ensures
            r == simsession_code(*self),
    {
        match self {
            SimsessionType::OpenPractice => 3,
            SimsessionType::LoneQualifying => 4,
            SimsessionType::OpenQualifying => 5,
            SimsessionType::Race => 6,
        }
    }
}

} // verus!
