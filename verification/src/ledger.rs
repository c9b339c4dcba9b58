use vstd::prelude::*;

verus! {

/// One owner's ledger: the bitcoin the service must not let the owner spend
/// (it backs agent holdings), and, per agent, the bitcoin owned by that agent
/// and the owner's rune balance with it.
pub struct BalanceEntries {
    pub restricted_bitcoin_balance: u64,
    pub ledger_entries: Vec<(u128, (u64, u128))>,
}

pub open spec fn has_agent_in(s: Seq<(u128, (u64, u128))>, agent: u128) -> bool {
    exists|i: int| 0 <= i < s.len() && (#[trigger] s[i]).0 == agent
}

pub open spec fn agent_index_in(s: Seq<(u128, (u64, u128))>, agent: u128) -> int {
    choose|i: int| 0 <= i < s.len() && (#[trigger] s[i]).0 == agent
}

impl BalanceEntries {
    /// Agent keys are never repeated.
    pub open spec fn wf(self) -> bool {
        forall|i: int, j: int|
            0 <= i < j < self.ledger_entries@.len() ==> (#[trigger] self.ledger_entries@[i]).0 != (
            #[trigger] self.ledger_entries@[j]).0
    }

    pub open spec fn has_agent(self, agent: u128) -> bool {
        has_agent_in(self.ledger_entries@, agent)
    }

    pub open spec fn agent_index(self, agent: u128) -> int {
        agent_index_in(self.ledger_entries@, agent)
    }

    /// The (agent-owned bitcoin, rune balance) pair for an agent; absent
    /// agents hold nothing.
    pub open spec fn entry_of(self, agent: u128) -> (u64, u128) {
        if self.has_agent(agent) {
            self.ledger_entries@[self.agent_index(agent)].1
        } else {
            (0u64, 0u128)
        }
    }

    pub open spec fn entries_frame(self, pre: Self, agent: u128) -> bool {
        forall|a: u128| a != agent ==> self.entry_of(a) == pre.entry_of(a)
    }

    pub fn new() -> (r: BalanceEntries)
        ensures
            r.wf(),
            r.restricted_bitcoin_balance == 0,
            forall|a: u128| r.entry_of(a) == (0u64, 0u128),
    {
        BalanceEntries { restricted_bitcoin_balance: 0, ledger_entries: Vec::new() }
    }

    fn find_agent(&self, agent: u128) -> (r: Option<usize>)
        requires
            self.wf(),
        ensures
            match r {
                Some(i) => (i as int) < self.ledger_entries@.len()
                    && self.ledger_entries@[i as int].0 == agent && self.has_agent(agent)
                    && self.agent_index(agent) == i as int,
                None => !self.has_agent(agent),
            },
    {
        let mut i: usize = 0;
        while i < self.ledger_entries.len()
            invariant
                self.wf(),
                i <= self.ledger_entries@.len(),
                forall|k: int| 0 <= k < i ==> (#[trigger] self.ledger_entries@[k]).0 != agent,
            decreases self.ledger_entries@.len() - i,
        {
            if self.ledger_entries[i].0 == agent {
                proof {
                    let j = self.agent_index(agent);
                    assert(0 <= j < self.ledger_entries@.len() && self.ledger_entries@[j].0
                        == agent);
                }
                return Some(i);
            }
            i += 1;
        }
        None
    }

    /// Replaces (or creates) one agent's pair, leaving every other agent and
    /// the restricted balance alone.
    fn set_entry(&mut self, agent: u128, value: (u64, u128))
        requires
            old(self).wf(),
        ensures
            final(self).wf(),
            final(self).entry_of(agent) == value,
            final(self).entries_frame(*old(self), agent),
            final(self).restricted_bitcoin_balance == old(self).restricted_bitcoin_balance,
    {
        let ghost pre = *self;
        let idx = self.find_agent(agent);
        let at = match idx {
            Some(i) => {
                self.ledger_entries.remove(i);
                i
            },
            None => self.ledger_entries.len(),
        };
        let ghost mid = self.ledger_entries@;
        self.ledger_entries.insert(at, (agent, value));
        proof {
            let post = *self;
            match idx {
                Some(i) => {
                    assert(post.ledger_entries@ =~= pre.ledger_entries@.update(
                        i as int,
                        (agent, value),
                    ));
                },
                None => {},
            }
            assert(post.has_agent(agent)) by {
                assert(post.ledger_entries@[at as int].0 == agent);
            }
            assert(post.agent_index(agent) == at as int) by {
                let j = post.agent_index(agent);
                assert(0 <= j < post.ledger_entries@.len() && post.ledger_entries@[j].0 == agent);
                if j != at as int {
                    assert(pre.ledger_entries@[j].0 == agent);
                    if idx is Some {
                        assert(pre.agent_index(agent) == at as int);
                    } else {
                        assert(pre.has_agent(agent));
                    }
                }
            }
            assert(post.wf());
            assert forall|a: u128| a != agent implies post.entry_of(a) == pre.entry_of(a) by {
                let grew = post.ledger_entries@.len() - pre.ledger_entries@.len();
                if post.has_agent(a) {
                    let i = post.agent_index(a);
                    assert(0 <= i < post.ledger_entries@.len() && post.ledger_entries@[i].0 == a);
                    assert(i != at as int);
                    let pi = if i < at as int {
                        i
                    } else {
                        i - grew
                    };
                    assert(pre.ledger_entries@[pi].0 == a);
                    assert(pre.has_agent(a));
                    let j = pre.agent_index(a);
                    assert(0 <= j < pre.ledger_entries@.len() && pre.ledger_entries@[j].0 == a);
                    assert(j == pi);
                } else {
                    if pre.has_agent(a) {
                        let j = pre.agent_index(a);
                        assert(0 <= j < pre.ledger_entries@.len() && pre.ledger_entries@[j].0 == a);
                        let i = if j < at as int {
                            j
                        } else {
                            j + grew
                        };
                        if i != at as int {
                            assert(post.ledger_entries@[i].0 == a);
                            assert(post.has_agent(a));
                        } else {
                            assert(grew == 0);
                            assert(pre.ledger_entries@[at as int].0 == a);
                        }
                    }
                }
            }
        }
    }

    /// Credits an owner's rune balance with an agent.
    pub fn record_rune_balance(&mut self, agent: u128, rune: u128)
        requires
            old(self).wf(),
            old(self).entry_of(agent).1 + rune <= u128::MAX,
        ensures
            final(self).wf(),
            final(self).entry_of(agent) == (
                old(self).entry_of(agent).0,
                (old(self).entry_of(agent).1 + rune) as u128,
            ),
            final(self).entries_frame(*old(self), agent),
            final(self).restricted_bitcoin_balance == old(self).restricted_bitcoin_balance,
    {
        let current = match self.find_agent(agent) {
            Some(i) => self.ledger_entries[i].1,
            None => (0u64, 0u128),
        };
        self.set_entry(agent, (current.0, current.1 + rune));
    }

    /// Credits the bitcoin an agent holds for an owner, and marks it
    /// restricted.
    pub fn record_agent_owned_balance(&mut self, agent: u128, bitcoin: u64)
        requires
            old(self).wf(),
            old(self).entry_of(agent).0 + bitcoin <= u64::MAX,
            old(self).restricted_bitcoin_balance + bitcoin <= u64::MAX,
        ensures
            final(self).wf(),
            final(self).entry_of(agent) == (
                (old(self).entry_of(agent).0 + bitcoin) as u64,
                old(self).entry_of(agent).1,
            ),
            final(self).entries_frame(*old(self), agent),
            final(self).restricted_bitcoin_balance == old(self).restricted_bitcoin_balance
                + bitcoin,
    {
        let current = match self.find_agent(agent) {
            Some(i) => self.ledger_entries[i].1,
            None => (0u64, 0u128),
        };
        self.restricted_bitcoin_balance = self.restricted_bitcoin_balance + bitcoin;
        self.set_entry(agent, (current.0 + bitcoin, current.1));
    }

    /// Debits an owner's rune balance with an agent; the agent must be on the
    /// ledger and hold enough.
    pub fn deduct_rune_balance(&mut self, agent: u128, rune: u128)
        requires
            old(self).wf(),
            old(self).has_agent(agent),
            old(self).entry_of(agent).1 >= rune,
        ensures
            final(self).wf(),
            final(self).entry_of(agent) == (
                old(self).entry_of(agent).0,
                (old(self).entry_of(agent).1 - rune) as u128,
            ),
            final(self).entries_frame(*old(self), agent),
            final(self).restricted_bitcoin_balance == old(self).restricted_bitcoin_balance,
    {
        let current = match self.find_agent(agent) {
            Some(i) => self.ledger_entries[i].1,
            None => (0u64, 0u128),
        };
        self.set_entry(agent, (current.0, current.1 - rune));
    }

    /// Debits the bitcoin an agent holds for an owner, releasing it from the
    /// restricted balance.
    pub fn deduct_agent_owned_balance(&mut self, agent: u128, bitcoin: u64)
        requires
            old(self).wf(),
            old(self).has_agent(agent),
            old(self).entry_of(agent).0 >= bitcoin,
            old(self).restricted_bitcoin_balance >= bitcoin,
        ensures
            final(self).wf(),
            final(self).entry_of(agent) == (
                (old(self).entry_of(agent).0 - bitcoin) as u64,
                old(self).entry_of(agent).1,
            ),
            final(self).entries_frame(*old(self), agent),
            final(self).restricted_bitcoin_balance == old(self).restricted_bitcoin_balance
                - bitcoin,
    {
        let current = match self.find_agent(agent) {
            Some(i) => self.ledger_entries[i].1,
            None => (0u64, 0u128),
        };
        self.restricted_bitcoin_balance = self.restricted_bitcoin_balance - bitcoin;
        self.set_entry(agent, (current.0 - bitcoin, current.1));
    }
}

} // verus!
