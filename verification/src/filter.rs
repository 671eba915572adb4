//! The column a port listing can be filtered or sorted by, and its display
//! form.

use vstd::prelude::*;

verus! {

/// A column of the port listing.
#[derive(Debug, Clone, Copy, PartialEq, Eq, Structural)]
pub enum FILTER {
    PROCESS,
    PORT,
    PID,
}

/// The display name of a column.
pub open spec fn spec_filter_name(f: FILTER) -> Seq<char> {
    match f {
        FILTER::PROCESS => "PROCESS"@,
        FILTER::PORT => "PORT"@,
        FILTER::PID => "PID"@,
    }
}

/// The column a display name denotes, or an error for any other string.
pub open spec fn spec_filter_parse(s: Seq<char>) -> Result<FILTER, ()> {
    if s == "PROCESS"@ {
        Ok(FILTER::PROCESS)
    } else if s == "PORT"@ {
        Ok(FILTER::PORT)
    } else if s == "PID"@ {
        Ok(FILTER::PID)
    } else {
        Err(())
    }
}

impl FILTER {
    /// The display name of the column.
    pub fn to_string(&self) -> (r: String)
        ensures
            r@ == spec_filter_name(*self),
    {
        match self {
            FILTER::PROCESS => "PROCESS".to_owned(),
            FILTER::PORT => "PORT".to_owned(),
            FILTER::PID => "PID".to_owned(),
        }
    }

    /// The column `input` names, or an error for any other string.
    pub fn from_str(input: &str) -> (r: Result<FILTER, ()>)
        ensures
            r == spec_filter_parse(input@),
    {
        let owned: String = input.to_owned();
        if owned == "PROCESS".to_owned() {
            Ok(FILTER::PROCESS)
        } else if owned == "PORT".to_owned() {
            Ok(FILTER::PORT)
        } else if owned == "PID".to_owned() {
            Ok(FILTER::PID)
        } else {
            Err(())
        }
    }
}

} // verus!
