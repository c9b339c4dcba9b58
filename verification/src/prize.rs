use vstd::prelude::*;

verus! {

/// The prize pool as it is reported to callers.
pub struct PrizePool {
    pub bitcoin: u64,
    pub rune: (String, u128),
}

} // verus!
