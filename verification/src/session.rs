use vstd::prelude::*;

verus! {

/// The conductor's persisted session: its time signature and tempo.
#[derive(Clone, Copy, Debug, PartialEq, Eq, Structural)]
pub struct Session {
    pub numerator: u16,
    pub denominator: u16,
    pub tempo: u16,
}

} // verus!
