use vstd::prelude::*;

use crate::prize;

verus! {

/// The stored prize-pool state: the past rounds (round number to timestamp,
/// winner address, amount and the paying transaction), the current secret
/// phrase, and the current pot.
pub struct PrizePool {
    pub past_winners: Vec<(u128, (u64, String, u128, Option<String>))>,
    pub magical_words: String,
    pub bitcoin: u64,
    pub rune: u128,
}

impl PrizePool {
    /// Reports the current pot under the given rune id.
    pub fn query_prize_pool(&self, runeid: String) -> (r: prize::PrizePool)
        ensures
            r.bitcoin == self.bitcoin,
            r.rune.0@ == runeid@,
            r.rune.1 == self.rune,
    {
        prize::PrizePool { bitcoin: self.bitcoin, rune: (runeid, self.rune) }
    }
}

} // verus!
