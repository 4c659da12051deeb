//! Diagnostic verdicts.

use vstd::prelude::*;

verus! {

/// Outcome of one diagnostic check.
#[derive(Clone, Copy, Debug, PartialEq, Eq, Structural)]
pub enum Verdict {
    Pass,
    Warn,
    Fail,
}

impl Verdict {
    /// The four-character tag printed before a check's line.
    pub fn tag(&self) -> (r: &'static str)
        ensures
            r@ == match *self {
                Verdict::Pass => "ok  "@,
                Verdict::Warn => "warn"@,
                Verdict::Fail => "FAIL"@,
            },
    {
        match self {
            Verdict::Pass => "ok  ",
            Verdict::Warn => "warn",
            Verdict::Fail => "FAIL",
        }
    }
}

} // verus!
