use vstd::prelude::*;

use crate::types::{Outpoint, Utxo, RunicUtxo, RuneId, sum_value, sum_balance, sum_runic_value, same_outpoint, has_outpoint, has_outpoint_runic, unique_outpoints, unique_outpoints_runic, min_value_index, min_balance_index, merge_utxos, merge_runic_utxos, lemma_min_value_index, lemma_min_balance_index, lemma_sum_value_remove, lemma_sum_balance_remove, lemma_sum_value_bounds, lemma_sum_balance_bounds, lemma_merge_utxos, lemma_merge_runic_utxos, txids_wf, txids_wf_runic};

verus! {

/// All plain-value outputs held for one address.
pub struct BtcEntry {
    pub address: String,
    pub utxos: Vec<Utxo>,
}

/// All outputs of one rune held for one address.
pub struct RuneEntry {
    pub runeid: RuneId,
    pub utxos: Vec<RunicUtxo>,
}

/// All rune-bearing outputs held for one address, grouped by rune.
pub struct RunicEntry {
    pub address: String,
    pub runes: Vec<RuneEntry>,
}

/// Per-address custody of spendable outputs: a plain-bitcoin pool and a
/// rune pool per (address, rune) pair. Extraction is smallest-first and
/// removes the output synchronously, so no two callers can select the same
/// outpoint; restoration merges idempotently by outpoint identity.
pub struct UtxoManager {
    pub btc: Vec<BtcEntry>,
    pub runic: Vec<RunicEntry>,
}

pub open spec fn rune_entry_wf(e: RunicEntry) -> bool {
    &&& forall|p: int, q: int|
        0 <= p < q < e.runes@.len() ==> e.runes@[p].runeid != e.runes@[q].runeid
    &&& forall|p: int|
        0 <= p < e.runes@.len() ==> unique_outpoints_runic(#[trigger] e.runes@[p].utxos@)
    &&& forall|p: int|
        0 <= p < e.runes@.len() ==> sum_balance(#[trigger] e.runes@[p].utxos@) <= u128::MAX
}

impl UtxoManager {
    pub open spec fn wf(self) -> bool {
        &&& forall|i: int, j: int|
            0 <= i < j < self.btc@.len() ==> self.btc@[i].address@ != self.btc@[j].address@
        &&& forall|i: int|
            0 <= i < self.btc@.len() ==> unique_outpoints(#[trigger] self.btc@[i].utxos@)
        &&& forall|i: int|
            0 <= i < self.btc@.len() ==> sum_value(#[trigger] self.btc@[i].utxos@) <= u64::MAX
        &&& forall|i: int, j: int|
            0 <= i < j < self.runic@.len() ==> self.runic@[i].address@ != self.runic@[j].address@
        &&& forall|i: int| 0 <= i < self.runic@.len() ==> rune_entry_wf(#[trigger] self.runic@[i])
    }

    pub open spec fn has_btc_entry(self, addr: Seq<char>) -> bool {
        exists|i: int| 0 <= i < self.btc@.len() && self.btc@[i].address@ == addr
    }

    pub open spec fn btc_index(self, addr: Seq<char>) -> int {
        choose|i: int| 0 <= i < self.btc@.len() && self.btc@[i].address@ == addr
    }

    /// The plain-bitcoin pool of an address (empty if none is held).
    pub open spec fn btc_utxos(self, addr: Seq<char>) -> Seq<Utxo> {
        if self.has_btc_entry(addr) {
            self.btc@[self.btc_index(addr)].utxos@
        } else {
            Seq::empty()
        }
    }

    pub open spec fn has_runic_entry(self, addr: Seq<char>) -> bool {
        exists|i: int| 0 <= i < self.runic@.len() && self.runic@[i].address@ == addr
    }

    pub open spec fn runic_index(self, addr: Seq<char>) -> int {
        choose|i: int| 0 <= i < self.runic@.len() && self.runic@[i].address@ == addr
    }

    /// The rune sets held for an address (empty if none is held).
    pub open spec fn rune_sets(self, addr: Seq<char>) -> Seq<RuneEntry> {
        if self.has_runic_entry(addr) {
            self.runic@[self.runic_index(addr)].runes@
        } else {
            Seq::empty()
        }
    }

    pub open spec fn has_rune_set(self, addr: Seq<char>, rid: RuneId) -> bool {
        exists|p: int|
            0 <= p < self.rune_sets(addr).len() && self.rune_sets(addr)[p].runeid == rid
    }

    pub open spec fn rune_set_index(self, addr: Seq<char>, rid: RuneId) -> int {
        choose|p: int|
            0 <= p < self.rune_sets(addr).len() && self.rune_sets(addr)[p].runeid == rid
    }

    /// The pool of one rune for one address (empty if none is held).
    pub open spec fn runic_utxos(self, addr: Seq<char>, rid: RuneId) -> Seq<RunicUtxo> {
        if self.has_rune_set(addr, rid) {
            self.rune_sets(addr)[self.rune_set_index(addr, rid)].utxos@
        } else {
            Seq::empty()
        }
    }

    /// Every other address's bitcoin pool is untouched.
    pub open spec fn btc_frame(self, pre: Self, addr: Seq<char>) -> bool {
        forall|a: Seq<char>| a != addr ==> self.btc_utxos(a) == pre.btc_utxos(a)
    }

    /// The whole rune side is untouched.
    pub open spec fn runic_all_frame(self, pre: Self) -> bool {
        forall|a: Seq<char>, rid: RuneId| self.runic_utxos(a, rid) == pre.runic_utxos(a, rid)
    }

    /// The whole bitcoin side is untouched.
    pub open spec fn btc_all_frame(self, pre: Self) -> bool {
        forall|a: Seq<char>| self.btc_utxos(a) == pre.btc_utxos(a)
    }

    /// Every bitcoin pool but the two named ones is untouched.
    pub open spec fn btc_frame2(self, pre: Self, addr1: Seq<char>, addr2: Seq<char>) -> bool {
        forall|a: Seq<char>|
            a != addr1 && a != addr2 ==> self.btc_utxos(a) == pre.btc_utxos(a)
    }

    /// Every other (address, rune) pool is untouched.
    pub open spec fn runic_frame(self, pre: Self, addr: Seq<char>, rid: RuneId) -> bool {
        forall|a: Seq<char>, r: RuneId|
            !(a == addr && r == rid) ==> self.runic_utxos(a, r) == pre.runic_utxos(a, r)
    }

    pub fn new() -> (r: UtxoManager)
        ensures
            r.wf(),
            forall|a: Seq<char>| r.btc_utxos(a) == Seq::<Utxo>::empty(),
            forall|a: Seq<char>, rid: RuneId| r.runic_utxos(a, rid) == Seq::<RunicUtxo>::empty(),
    {
        UtxoManager { btc: Vec::new(), runic: Vec::new() }
    }

    fn find_btc_index(&self, addr: &String) -> (r: Option<usize>)
        requires
            self.wf(),
        ensures
            match r {
                Some(i) => {
                    &&& (i as int) < self.btc@.len()
                    &&& self.btc@[i as int].address@ == addr@
                    &&& self.has_btc_entry(addr@)
                    &&& self.btc_index(addr@) == i as int
                },
                None => !self.has_btc_entry(addr@),
            },
    {
        let mut i: usize = 0;
        while i < self.btc.len()
            invariant
                self.wf(),
                i <= self.btc@.len(),
                forall|k: int| 0 <= k < i ==> self.btc@[k].address@ != addr@,
            decreases self.btc@.len() - i,
        {
            if self.btc[i].address == *addr {
                proof {
                    let j = self.btc_index(addr@);
                    assert(0 <= j < self.btc@.len() && self.btc@[j].address@ == addr@);
                }
                return Some(i);
            }
            i += 1;
        }
        None
    }

    fn find_runic_index(&self, addr: &String) -> (r: Option<usize>)
        requires
            self.wf(),
        ensures
            match r {
                Some(i) => {
                    &&& (i as int) < self.runic@.len()
                    &&& self.runic@[i as int].address@ == addr@
                    &&& self.has_runic_entry(addr@)
                    &&& self.runic_index(addr@) == i as int
                },
                None => !self.has_runic_entry(addr@),
            },
    {
        let mut i: usize = 0;
        while i < self.runic.len()
            invariant
                self.wf(),
                i <= self.runic@.len(),
                forall|k: int| 0 <= k < i ==> self.runic@[k].address@ != addr@,
            decreases self.runic@.len() - i,
        {
            if self.runic[i].address == *addr {
                proof {
                    let j = self.runic_index(addr@);
                    assert(0 <= j < self.runic@.len() && self.runic@[j].address@ == addr@);
                }
                return Some(i);
            }
            i += 1;
        }
        None
    }

    /// Idempotent merge-insert of freshly observed plain outputs: one whose
    /// outpoint is already held is not duplicated.
    #[verifier::rlimit(100)]
    #[verifier::spinoff_prover]
    pub fn record_bitcoin_utxos(&mut self, addr: &String, utxos: Vec<Utxo>)
        requires
            old(self).wf(),
            sum_value(old(self).btc_utxos(addr@)) + sum_value(utxos@) <= u64::MAX,
        ensures
            final(self).wf(),
            final(self).btc_utxos(addr@) == merge_utxos(old(self).btc_utxos(addr@), utxos@),
            final(self).btc_frame(*old(self), addr@),
            final(self).runic_all_frame(*old(self)),
    {
        let ghost pre = *self;
        let idx = self.find_btc_index(addr);
        let mut entry = match idx {
            Some(i) => self.btc.remove(i),
            None => BtcEntry { address: addr.clone(), utxos: Vec::new() },
        };
        let ghost at = match idx {
            Some(i) => i as int,
            None => self.btc@.len() as int,
        };
        let ghost cur0 = entry.utxos@;
        proof {
            assert(cur0 == pre.btc_utxos(addr@));
            assert(unique_outpoints(cur0)) by {
                if idx is Some {
                    assert(pre.btc@[pre.btc_index(addr@)].utxos@ == cur0);
                }
            }
        }
        let ghost us = utxos@;
        let mut rest = utxos;
        let n = rest.len();
        let mut j: usize = 0;
        while j < n
            invariant
                n == us.len(),
                j <= n,
                rest@ =~= us.skip(j as int),
                unique_outpoints(cur0),
                entry.utxos@ == merge_utxos(cur0, us.take(j as int)),
                entry.address@ == addr@,
            decreases n - j,
        {
            proof {
                lemma_merge_utxos(cur0, us.take(j as int));
            }
            let u = rest.remove(0);
            proof {
                assert(u == us[j as int]);
                assert(rest@ =~= us.skip(j + 1));
                assert(us.take(j + 1).drop_last() =~= us.take(j as int));
                assert(us.take(j + 1).last() == us[j as int]);
            }
            let present = contains_outpoint(&entry.utxos, &u.outpoint);
            if !present {
                entry.utxos.push(u);
            }
            j += 1;
        }
        proof {
            assert(us.take(n as int) =~= us);
            lemma_merge_utxos(cur0, us);
            lemma_sum_value_bounds(us);
            lemma_sum_value_bounds(cur0);
        }
        let ghost btc_before_insert = self.btc@;
        self.btc.insert(
            match idx {
                Some(i) => i,
                None => self.btc.len(),
            },
            entry,
        );
        proof {
            let post = *self;
            match idx {
                Some(i) => {
                    assert(post.btc@ =~= pre.btc@.update(i as int, post.btc@[i as int]));
                },
                None => {},
            }
            assert(post.has_btc_entry(addr@)) by {
                assert(post.btc@[at].address@ == addr@);
            }
            assert(post.btc_index(addr@) == at) by {
                let j = post.btc_index(addr@);
                assert(0 <= j < post.btc@.len() && post.btc@[j].address@ == addr@);
                if j != at {
                    if idx is Some {
                        assert(pre.btc@[j].address@ == addr@);
                        assert(pre.btc_index(addr@) == at);
                    } else {
                        assert(pre.btc@[j].address@ == addr@);
                        assert(pre.has_btc_entry(addr@));
                    }
                }
            }
            assert(post.btc_utxos(addr@) == merge_utxos(pre.btc_utxos(addr@), utxos@));
            assert forall|a: Seq<char>| a != addr@ implies post.btc_utxos(a) == pre.btc_utxos(
                a,
            ) by {
                lemma_frame_btc(pre, post, at, a);
            }
            assert(post.wf());
            lemma_runic_eq(pre, post);
        }
    }

    /// Idempotent merge-insert of freshly observed rune-bearing outputs.
    #[verifier::rlimit(100)]
    #[verifier::spinoff_prover]
    pub fn record_runic_utxos(&mut self, addr: &String, runeid: RuneId, utxos: Vec<RunicUtxo>)
        requires
            old(self).wf(),
            sum_balance(old(self).runic_utxos(addr@, runeid)) + sum_balance(utxos@) <= u128::MAX,
        ensures
            final(self).wf(),
            final(self).runic_utxos(addr@, runeid) == merge_runic_utxos(
                old(self).runic_utxos(addr@, runeid),
                utxos@,
            ),
            final(self).runic_frame(*old(self), addr@, runeid),
            final(self).btc_all_frame(*old(self)),
    {
        let ghost pre = *self;
        let idx = self.find_runic_index(addr);
        let mut outer = match idx {
            Some(i) => self.runic.remove(i),
            None => RunicEntry { address: addr.clone(), runes: Vec::new() },
        };
        let ghost at = match idx {
            Some(i) => i as int,
            None => self.runic@.len() as int,
        };
        proof {
            assert(rune_entry_wf(outer)) by {
                if idx is Some {
                    assert(pre.runic@[pre.runic_index(addr@)] == outer);
                }
            }
            assert(outer.runes@ == pre.rune_sets(addr@));
        }
        let ghost sets0 = outer.runes@;
        let sidx = find_rune_set(&outer, &runeid);
        let mut set = match sidx {
            Some(p) => outer.runes.remove(p),
            None => RuneEntry { runeid, utxos: Vec::new() },
        };
        let ghost sat = match sidx {
            Some(p) => p as int,
            None => outer.runes@.len() as int,
        };
        let ghost cur0 = set.utxos@;
        proof {
            assert(sets0 == pre.rune_sets(addr@));
            if sidx is Some {
                lemma_rune_set_lookup(sets0, sat, runeid);
                assert(cur0 == sets0[sat].utxos@);
            }
            assert(cur0 == pre.runic_utxos(addr@, runeid));
            assert(unique_outpoints_runic(cur0));
        }
        let ghost us = utxos@;
        let mut rest = utxos;
        let n = rest.len();
        let mut j: usize = 0;
        while j < n
            invariant
                n == us.len(),
                j <= n,
                rest@ =~= us.skip(j as int),
                unique_outpoints_runic(cur0),
                set.utxos@ == merge_runic_utxos(cur0, us.take(j as int)),
                set.runeid == runeid,
            decreases n - j,
        {
            proof {
                lemma_merge_runic_utxos(cur0, us.take(j as int));
            }
            let u = rest.remove(0);
            proof {
                assert(u == us[j as int]);
                assert(rest@ =~= us.skip(j + 1));
                assert(us.take(j + 1).drop_last() =~= us.take(j as int));
                assert(us.take(j + 1).last() == us[j as int]);
            }
            let present = contains_outpoint_runic(&set.utxos, &u.utxo.outpoint);
            if !present {
                set.utxos.push(u);
            }
            j += 1;
        }
        proof {
            assert(us.take(n as int) =~= us);
            lemma_merge_runic_utxos(cur0, us);
            lemma_sum_balance_bounds(us);
            lemma_sum_balance_bounds(cur0);
        }
        outer.runes.insert(
            match sidx {
                Some(p) => p,
                None => outer.runes.len(),
            },
            set,
        );
        proof {
            match sidx {
                Some(p) => {
                    assert(outer.runes@ =~= sets0.update(p as int, outer.runes@[p as int]));
                },
                None => {},
            }
            assert(rune_entry_wf(outer));
        }
        self.runic.insert(
            match idx {
                Some(i) => i,
                None => self.runic.len(),
            },
            outer,
        );
        proof {
            let post = *self;
            match idx {
                Some(i) => {
                    assert(post.runic@ =~= pre.runic@.update(i as int, post.runic@[i as int]));
                },
                None => {},
            }
            assert(post.has_runic_entry(addr@)) by {
                assert(post.runic@[at].address@ == addr@);
            }
            assert(post.runic_index(addr@) == at) by {
                let j2 = post.runic_index(addr@);
                assert(0 <= j2 < post.runic@.len() && post.runic@[j2].address@ == addr@);
                if j2 != at {
                    assert(pre.runic@[j2].address@ == addr@);
                    if idx is Some {
                        assert(pre.runic_index(addr@) == at);
                    } else {
                        assert(pre.has_runic_entry(addr@));
                    }
                }
            }
            assert(post.rune_sets(addr@) == post.runic@[at].runes@);
            lemma_rune_set_lookup(post.rune_sets(addr@), sat, runeid);
            assert(post.runic_utxos(addr@, runeid) == merge_runic_utxos(
                pre.runic_utxos(addr@, runeid),
                utxos@,
            ));
            assert forall|a: Seq<char>, r: RuneId| !(a == addr@ && r == runeid) implies
                post.runic_utxos(a, r) == pre.runic_utxos(a, r) by {
                if a != addr@ {
                    lemma_frame_runic(pre, post, at, a, r);
                } else {
                    assert(pre.rune_sets(addr@) == sets0);
                    lemma_rune_set_frame(sets0, post.rune_sets(addr@), sat, r);
                    if post.has_rune_set(a, r) {
                        assert(pre.has_rune_set(a, r));
                        let p1 = pre.rune_set_index(a, r);
                        let p2 = post.rune_set_index(a, r);
                        assert(0 <= p1 < sets0.len() && sets0[p1].runeid == r);
                        assert(0 <= p2 < post.rune_sets(a).len() && post.rune_sets(a)[p2].runeid
                            == r);
                        assert(sets0[p1].utxos@ == post.rune_sets(a)[p2].utxos@);
                    } else {
                        if pre.has_rune_set(a, r) {
                            assert(post.has_rune_set(a, r));
                        }
                    }
                }
            }
            assert(post.wf());
            lemma_btc_eq(pre, post);
        }
    }

    /// Removes and returns the held plain output with the smallest value;
    /// returns nothing exactly when the pool is empty.
    #[verifier::rlimit(100)]
    #[verifier::spinoff_prover]
    pub fn get_bitcoin_utxo(&mut self, addr: &String) -> (r: Option<Utxo>)
        requires
            old(self).wf(),
        ensures
            final(self).wf(),
            match r {
                None => {
                    &&& old(self).btc_utxos(addr@).len() == 0
                    &&& final(self).btc_utxos(addr@) == old(self).btc_utxos(addr@)
                },
                Some(u) => {
                    let s = old(self).btc_utxos(addr@);
                    let k = min_value_index(s);
                    &&& s.len() > 0
                    &&& u == s[k]
                    &&& final(self).btc_utxos(addr@) == s.remove(k)
                },
            },
            final(self).btc_frame(*old(self), addr@),
            final(self).runic_all_frame(*old(self)),
    {
        let ghost pre = *self;
        let idx = match self.find_btc_index(addr) {
            None => {
                return None;
            },
            Some(i) => i,
        };
        if self.btc[idx].utxos.len() == 0 {
            return None;
        }
        let k = min_index_utxos(&self.btc[idx].utxos);
        let mut entry = self.btc.remove(idx);
        let u = entry.utxos.remove(k);
        proof {
            lemma_min_value_index(pre.btc_utxos(addr@));
            lemma_unique_outpoints_remove(pre.btc_utxos(addr@), k as int);
            lemma_sum_value_remove(pre.btc_utxos(addr@), k as int);
            lemma_sum_value_bounds(pre.btc_utxos(addr@));
        }
        self.btc.insert(idx, entry);
        proof {
            let post = *self;
            assert(post.btc@ =~= pre.btc@.update(idx as int, post.btc@[idx as int]));
            assert(post.has_btc_entry(addr@)) by {
                assert(post.btc@[idx as int].address@ == addr@);
            }
            assert(post.btc_index(addr@) == idx as int) by {
                let j = post.btc_index(addr@);
                assert(0 <= j < post.btc@.len() && post.btc@[j].address@ == addr@);
                if j != idx as int {
                    assert(pre.btc@[j].address@ == addr@);
                    assert(pre.btc_index(addr@) == idx as int);
                }
            }
            assert forall|a: Seq<char>| a != addr@ implies post.btc_utxos(a) == pre.btc_utxos(
                a,
            ) by {
                lemma_frame_btc(pre, post, idx as int, a);
            }
            assert(post.wf());
            lemma_runic_eq(pre, post);
        }
        Some(u)
    }

    /// Removes and returns the held output of the given rune with the smallest
    /// balance; returns nothing exactly when that pool is empty.
    #[verifier::rlimit(100)]
    #[verifier::spinoff_prover]
    pub fn get_runic_utxo(&mut self, addr: &String, runeid: RuneId) -> (r: Option<RunicUtxo>)
        requires
            old(self).wf(),
        ensures
            final(self).wf(),
            match r {
                None => {
                    &&& old(self).runic_utxos(addr@, runeid).len() == 0
                    &&& final(self).runic_utxos(addr@, runeid) == old(self).runic_utxos(addr@, runeid)
                },
                Some(u) => {
                    let s = old(self).runic_utxos(addr@, runeid);
                    let k = min_balance_index(s);
                    &&& s.len() > 0
                    &&& u == s[k]
                    &&& final(self).runic_utxos(addr@, runeid) == s.remove(k)
                },
            },
            final(self).runic_frame(*old(self), addr@, runeid),
            final(self).btc_all_frame(*old(self)),
    {
        let ghost pre = *self;
        let idx = match self.find_runic_index(addr) {
            None => {
                return None;
            },
            Some(i) => i,
        };
        proof {
            assert(rune_entry_wf(pre.runic@[idx as int]));
        }
        let sidx = match find_rune_set(&self.runic[idx], &runeid) {
            None => {
                return None;
            },
            Some(p) => p,
        };
        proof {
            assert(pre.rune_sets(addr@) == pre.runic@[idx as int].runes@);
            lemma_rune_set_lookup(pre.rune_sets(addr@), sidx as int, runeid);
        }
        if self.runic[idx].runes[sidx].utxos.len() == 0 {
            return None;
        }
        let k = min_index_runic(&self.runic[idx].runes[sidx].utxos);
        let mut outer = self.runic.remove(idx);
        let ghost sets0 = outer.runes@;
        let mut set = outer.runes.remove(sidx);
        let u = set.utxos.remove(k);
        proof {
            lemma_min_balance_index(pre.runic_utxos(addr@, runeid));
            lemma_unique_outpoints_runic_remove(pre.runic_utxos(addr@, runeid), k as int);
            lemma_sum_balance_remove(pre.runic_utxos(addr@, runeid), k as int);
            lemma_sum_balance_bounds(pre.runic_utxos(addr@, runeid));
        }
        outer.runes.insert(sidx, set);
        proof {
            assert(outer.runes@ =~= sets0.update(sidx as int, outer.runes@[sidx as int]));
            assert(rune_entry_wf(outer));
        }
        self.runic.insert(idx, outer);
        proof {
            let post = *self;
            assert(post.runic@ =~= pre.runic@.update(idx as int, post.runic@[idx as int]));
            assert(post.has_runic_entry(addr@)) by {
                assert(post.runic@[idx as int].address@ == addr@);
            }
            assert(post.runic_index(addr@) == idx as int) by {
                let j = post.runic_index(addr@);
                assert(0 <= j < post.runic@.len() && post.runic@[j].address@ == addr@);
                if j != idx as int {
                    assert(pre.runic@[j].address@ == addr@);
                    assert(pre.runic_index(addr@) == idx as int);
                }
            }
            assert(post.rune_sets(addr@) == post.runic@[idx as int].runes@);
            lemma_rune_set_lookup(post.rune_sets(addr@), sidx as int, runeid);
            assert forall|a: Seq<char>, r: RuneId| !(a == addr@ && r == runeid) implies
                post.runic_utxos(a, r) == pre.runic_utxos(a, r) by {
                if a != addr@ {
                    lemma_frame_runic(pre, post, idx as int, a, r);
                } else {
                    assert(pre.rune_sets(addr@) == sets0);
                    lemma_rune_set_frame(sets0, post.rune_sets(addr@), sidx as int, r);
                    if post.has_rune_set(a, r) {
                        assert(pre.has_rune_set(a, r));
                        let p1 = pre.rune_set_index(a, r);
                        let p2 = post.rune_set_index(a, r);
                        assert(0 <= p1 < sets0.len() && sets0[p1].runeid == r);
                        assert(0 <= p2 < post.rune_sets(a).len() && post.rune_sets(a)[p2].runeid
                            == r);
                        assert(sets0[p1].utxos@ == post.rune_sets(a)[p2].utxos@);
                    } else {
                        if pre.has_rune_set(a, r) {
                            assert(post.has_rune_set(a, r));
                        }
                    }
                }
            }
            assert(post.wf());
            lemma_btc_eq(pre, post);
        }
        Some(u)
    }

    /// Read-only aggregate of the plain satoshi value held for an address.
    pub fn get_bitcoin_balance(&self, addr: &String) -> (r: u64)
        requires
            self.wf(),
        ensures
            r as int == sum_value(self.btc_utxos(addr@)),
    {
        let idx = match self.find_btc_index(addr) {
            None => {
                return 0;
            },
            Some(i) => i,
        };
        let utxos = &self.btc[idx].utxos;
        let ghost s = self.btc_utxos(addr@);
        proof {
            lemma_sum_value_bounds(s);
        }
        let mut total: u64 = 0;
        let mut j: usize = 0;
        while j < utxos.len()
            invariant
                s == utxos@,
                j <= s.len(),
                sum_value(s) <= u64::MAX,
                total as int == sum_value(s.take(j as int)),
            decreases s.len() - j,
        {
            proof {
                assert(s.take(j + 1).drop_last() =~= s.take(j as int));
                assert(s.take(j + 1).last() == s[j as int]);
                lemma_sum_value_take_bound(s, j + 1);
            }
            total = total + utxos[j].value;
            j += 1;
        }
        proof {
            assert(s.take(s.len() as int) =~= s);
        }
        total
    }

    /// Read-only aggregate balance of one rune held for an address.
    pub fn get_runestone_balance(&self, addr: &String, runeid: &RuneId) -> (r: u128)
        requires
            self.wf(),
        ensures
            r as int == sum_balance(self.runic_utxos(addr@, *runeid)),
    {
        let idx = match self.find_runic_index(addr) {
            None => {
                return 0;
            },
            Some(i) => i,
        };
        proof {
            assert(rune_entry_wf(self.runic@[idx as int]));
        }
        let sidx = match find_rune_set(&self.runic[idx], runeid) {
            None => {
                return 0;
            },
            Some(p) => p,
        };
        proof {
            assert(self.rune_sets(addr@) == self.runic@[idx as int].runes@);
            lemma_rune_set_lookup(self.rune_sets(addr@), sidx as int, *runeid);
        }
        let utxos = &self.runic[idx].runes[sidx].utxos;
        let ghost s = self.runic_utxos(addr@, *runeid);
        proof {
            lemma_sum_balance_bounds(s);
        }
        let mut total: u128 = 0;
        let mut j: usize = 0;
        while j < utxos.len()
            invariant
                s == utxos@,
                j <= s.len(),
                sum_balance(s) <= u128::MAX,
                total as int == sum_balance(s.take(j as int)),
            decreases s.len() - j,
        {
            proof {
                assert(s.take(j + 1).drop_last() =~= s.take(j as int));
                assert(s.take(j + 1).last() == s[j as int]);
                lemma_sum_balance_take_bound(s, j + 1);
            }
            total = total + utxos[j].balance;
            j += 1;
        }
        proof {
            assert(s.take(s.len() as int) =~= s);
        }
        total
    }

    /// Whether the given output is already classified as rune-bearing for
    /// this address (by outpoint identity, under any rune).
    pub fn is_recorded_as_runic(&self, addr: &String, utxo: &Utxo) -> (r: bool)
        requires
            self.wf(),
        ensures
            r == exists|p: int|
                0 <= p < self.rune_sets(addr@).len() && has_outpoint_runic(
                    #[trigger] self.rune_sets(addr@)[p].utxos@,
                    utxo.outpoint,
                ),
    {
        let idx = match self.find_runic_index(addr) {
            None => {
                return false;
            },
            Some(i) => i,
        };
        let sets = &self.runic[idx].runes;
        let mut p: usize = 0;
        while p < sets.len()
            invariant
                sets@ == self.rune_sets(addr@),
                p <= sets@.len(),
                forall|q: int|
                    0 <= q < p ==> !has_outpoint_runic(
                        #[trigger] sets@[q].utxos@,
                        utxo.outpoint,
                    ),
            decreases sets@.len() - p,
        {
            if contains_outpoint_runic(&sets[p].utxos, &utxo.outpoint) {
                return true;
            }
            p += 1;
        }
        false
    }

    /// All runes held for an address, each with its aggregate balance.
    pub fn all_rune_with_balances(&self, addr: &String) -> (r: Vec<(RuneId, u128)>)
        requires
            self.wf(),
        ensures
            r@.len() == self.rune_sets(addr@).len(),
            forall|p: int|
                0 <= p < r@.len() ==> #[trigger] r@[p].0 == self.rune_sets(addr@)[p].runeid
                    && r@[p].1 as int == sum_balance(self.rune_sets(addr@)[p].utxos@),
    {
        let mut out: Vec<(RuneId, u128)> = Vec::new();
        let idx = match self.find_runic_index(addr) {
            None => {
                return out;
            },
            Some(i) => i,
        };
        proof {
            assert(rune_entry_wf(self.runic@[idx as int]));
        }
        let sets = &self.runic[idx].runes;
        let mut p: usize = 0;
        while p < sets.len()
            invariant
                self.wf(),
                sets@ == self.rune_sets(addr@),
                rune_entry_wf(self.runic@[self.runic_index(addr@)]),
                p <= sets@.len(),
                out@.len() == p,
                forall|q: int|
                    0 <= q < p ==> #[trigger] out@[q].0 == sets@[q].runeid && out@[q].1 as int
                        == sum_balance(sets@[q].utxos@),
            decreases sets@.len() - p,
        {
            let balance = sum_balances_vec(&sets[p].utxos);
            let ghost out0 = out@;
            out.push((sets[p].runeid, balance));
            proof {
                assert(out@ =~= out0.push((sets@[p as int].runeid, balance)));
                assert(forall|q: int| 0 <= q < p ==> out@[q] == out0[q]);
                assert(out@[p as int].0 == sets@[p as int].runeid);
                assert(out@[p as int].1 == balance);
            }
            p += 1;
        }
        out
    }

    /// The position of the (unique) held output with a given outpoint.
    pub open spec fn outpoint_index_in(s: Seq<Utxo>, op: Outpoint) -> int {
        choose|i: int| 0 <= i < s.len() && same_outpoint(s[i].outpoint, op)
    }

    /// Drops the output with the given outpoint from an address's bitcoin
    /// pool, if it is held: the pool afterwards is exactly the old pool with
    /// that one entry removed (or unchanged when nothing matched).
    #[verifier::rlimit(100)]
    #[verifier::spinoff_prover]
    pub fn remove_bitcoin_utxo(&mut self, addr: &String, utxo: &Utxo)
        requires
            old(self).wf(),
        ensures
            final(self).wf(),
            !has_outpoint(final(self).btc_utxos(addr@), utxo.outpoint),
            has_outpoint(old(self).btc_utxos(addr@), utxo.outpoint) ==> final(self).btc_utxos(
                addr@,
            ) == old(self).btc_utxos(addr@).remove(
                Self::outpoint_index_in(old(self).btc_utxos(addr@), utxo.outpoint),
            ),
            !has_outpoint(old(self).btc_utxos(addr@), utxo.outpoint) ==> final(self).btc_utxos(
                addr@,
            ) == old(self).btc_utxos(addr@),
            forall|op: Outpoint|
                !same_outpoint(op, utxo.outpoint) ==> (has_outpoint(
                    final(self).btc_utxos(addr@),
                    op,
                ) <==> has_outpoint(old(self).btc_utxos(addr@), op)),
            final(self).btc_frame(*old(self), addr@),
            final(self).runic_all_frame(*old(self)),
    {
        let ghost pre = *self;
        let idx = match self.find_btc_index(addr) {
            None => {
                return;
            },
            Some(i) => i,
        };
        let pos = match position_of_outpoint(&self.btc[idx].utxos, &utxo.outpoint) {
            None => {
                return;
            },
            Some(k) => k,
        };
        proof {
            let s0 = pre.btc_utxos(addr@);
            let j = Self::outpoint_index_in(s0, utxo.outpoint);
            assert(0 <= j < s0.len() && same_outpoint(s0[j].outpoint, utxo.outpoint));
            if j != pos as int {
                if j < pos as int {
                    assert(!same_outpoint(s0[j].outpoint, s0[pos as int].outpoint));
                } else {
                    assert(!same_outpoint(s0[pos as int].outpoint, s0[j].outpoint));
                }
            }
            assert(j == pos as int);
        }
        let mut entry = self.btc.remove(idx);
        let ghost s = entry.utxos@;
        let removed = entry.utxos.remove(pos);
        proof {
            lemma_unique_outpoints_remove(s, pos as int);
            lemma_sum_value_remove(s, pos as int);
            lemma_sum_value_bounds(s);
            assert forall|op: Outpoint| !same_outpoint(op, utxo.outpoint) implies (has_outpoint(
                s.remove(pos as int),
                op,
            ) <==> has_outpoint(s, op)) by {
                lemma_has_outpoint_remove(s, pos as int, op);
            }
            assert(!has_outpoint(s.remove(pos as int), utxo.outpoint)) by {
                if has_outpoint(s.remove(pos as int), utxo.outpoint) {
                    let i = choose|i: int|
                        0 <= i < s.remove(pos as int).len() && same_outpoint(
                            s.remove(pos as int)[i].outpoint,
                            utxo.outpoint,
                        );
                    if i < pos as int {
                        assert(s[i] == s.remove(pos as int)[i]);
                        assert(!same_outpoint(s[i].outpoint, s[pos as int].outpoint));
                    } else {
                        assert(s[i + 1] == s.remove(pos as int)[i]);
                        assert(!same_outpoint(s[pos as int].outpoint, s[i + 1].outpoint));
                    }
                }
            }
        }
        self.btc.insert(idx, entry);
        proof {
            let post = *self;
            assert(post.btc@ =~= pre.btc@.update(idx as int, post.btc@[idx as int]));
            assert(post.has_btc_entry(addr@)) by {
                assert(post.btc@[idx as int].address@ == addr@);
            }
            assert(post.btc_index(addr@) == idx as int) by {
                let j = post.btc_index(addr@);
                assert(0 <= j < post.btc@.len() && post.btc@[j].address@ == addr@);
                if j != idx as int {
                    assert(pre.btc@[j].address@ == addr@);
                    assert(pre.btc_index(addr@) == idx as int);
                }
            }
            assert forall|a: Seq<char>| a != addr@ implies post.btc_utxos(a) == pre.btc_utxos(
                a,
            ) by {
                lemma_frame_btc(pre, post, idx as int, a);
            }
            assert(post.wf());
            lemma_runic_eq(pre, post);
        }
    }
}

fn bytes_eq(a: &Vec<u8>, b: &Vec<u8>) -> (r: bool)
    ensures
        r == (a@ == b@),
{
    if a.len() != b.len() {
        proof {
            assert(a@.len() != b@.len());
        }
        return false;
    }
    let mut i: usize = 0;
    while i < a.len()
        invariant
            a@.len() == b@.len(),
            i <= a@.len(),
            forall|k: int| 0 <= k < i ==> a@[k] == b@[k],
        decreases a@.len() - i,
    {
        if a[i] != b[i] {
            return false;
        }
        i += 1;
    }
    proof {
        assert(a@ =~= b@);
    }
    true
}

fn same_outpoint_exec(a: &Outpoint, b: &Outpoint) -> (r: bool)
    ensures
        r == same_outpoint(*a, *b),
{
    a.vout == b.vout && bytes_eq(&a.txid, &b.txid)
}

fn contains_outpoint(v: &Vec<Utxo>, op: &Outpoint) -> (r: bool)
    ensures
        r == has_outpoint(v@, *op),
{
    match position_of_outpoint(v, op) {
        Some(_) => true,
        None => false,
    }
}

fn position_of_outpoint(v: &Vec<Utxo>, op: &Outpoint) -> (r: Option<usize>)
    ensures
        match r {
            Some(i) => (i as int) < v@.len() && same_outpoint(v@[i as int].outpoint, *op)
                && has_outpoint(v@, *op),
            None => !has_outpoint(v@, *op),
        },
{
    let mut i: usize = 0;
    while i < v.len()
        invariant
            i <= v@.len(),
            forall|k: int| 0 <= k < i ==> !same_outpoint(v@[k].outpoint, *op),
        decreases v@.len() - i,
    {
        if same_outpoint_exec(&v[i].outpoint, op) {
            return Some(i);
        }
        i += 1;
    }
    None
}

fn contains_outpoint_runic(v: &Vec<RunicUtxo>, op: &Outpoint) -> (r: bool)
    ensures
        r == has_outpoint_runic(v@, *op),
{
    let mut i: usize = 0;
    while i < v.len()
        invariant
            i <= v@.len(),
            forall|k: int| 0 <= k < i ==> !same_outpoint(v@[k].utxo.outpoint, *op),
        decreases v@.len() - i,
    {
        if same_outpoint_exec(&v[i].utxo.outpoint, op) {
            return true;
        }
        i += 1;
    }
    false
}

fn find_rune_set(e: &RunicEntry, rid: &RuneId) -> (r: Option<usize>)
    requires
        rune_entry_wf(*e),
    ensures
        match r {
            Some(p) => (p as int) < e.runes@.len() && e.runes@[p as int].runeid == *rid,
            None => forall|q: int| 0 <= q < e.runes@.len() ==> e.runes@[q].runeid != *rid,
        },
{
    let mut p: usize = 0;
    while p < e.runes.len()
        invariant
            p <= e.runes@.len(),
            forall|q: int| 0 <= q < p ==> e.runes@[q].runeid != *rid,
        decreases e.runes@.len() - p,
    {
        if e.runes[p].runeid.block == rid.block && e.runes[p].runeid.tx == rid.tx {
            return Some(p);
        }
        p += 1;
    }
    None
}

fn min_index_utxos(v: &Vec<Utxo>) -> (r: usize)
    requires
        v@.len() > 0,
    ensures
        r as int == min_value_index(v@),
        (r as int) < v@.len(),
{
    let mut best: usize = 0;
    let mut k: usize = 1;
    proof {
        assert(v@.take(1).len() == 1);
    }
    while k < v.len()
        invariant
            1 <= k <= v@.len(),
            (best as int) < k,
            best as int == min_value_index(v@.take(k as int)),
        decreases v@.len() - k,
    {
        proof {
            let s = v@.take(k + 1);
            assert(s.drop_last() =~= v@.take(k as int));
            assert(s.last() == v@[k as int]);
            lemma_min_value_index(v@.take(k as int));
        }
        if v[k].value < v[best].value {
            best = k;
        }
        k += 1;
    }
    proof {
        assert(v@.take(v@.len() as int) =~= v@);
    }
    best
}

fn min_index_runic(v: &Vec<RunicUtxo>) -> (r: usize)
    requires
        v@.len() > 0,
    ensures
        r as int == min_balance_index(v@),
        (r as int) < v@.len(),
{
    let mut best: usize = 0;
    let mut k: usize = 1;
    proof {
        assert(v@.take(1).len() == 1);
    }
    while k < v.len()
        invariant
            1 <= k <= v@.len(),
            (best as int) < k,
            best as int == min_balance_index(v@.take(k as int)),
        decreases v@.len() - k,
    {
        proof {
            let s = v@.take(k + 1);
            assert(s.drop_last() =~= v@.take(k as int));
            assert(s.last() == v@[k as int]);
            lemma_min_balance_index(v@.take(k as int));
        }
        if v[k].balance < v[best].balance {
            best = k;
        }
        k += 1;
    }
    proof {
        assert(v@.take(v@.len() as int) =~= v@);
    }
    best
}

fn sum_balances_vec(v: &Vec<RunicUtxo>) -> (r: u128)
    requires
        sum_balance(v@) <= u128::MAX,
    ensures
        r as int == sum_balance(v@),
{
    proof {
        lemma_sum_balance_bounds(v@);
    }
    let mut total: u128 = 0;
    let mut j: usize = 0;
    while j < v.len()
        invariant
            j <= v@.len(),
            sum_balance(v@) <= u128::MAX,
            total as int == sum_balance(v@.take(j as int)),
        decreases v@.len() - j,
    {
        proof {
            assert(v@.take(j + 1).drop_last() =~= v@.take(j as int));
            assert(v@.take(j + 1).last() == v@[j as int]);
            lemma_sum_balance_take_bound(v@, j + 1);
        }
        total = total + v[j].balance;
        j += 1;
    }
    proof {
        assert(v@.take(v@.len() as int) =~= v@);
    }
    total
}

pub proof fn lemma_sum_value_take_bound(s: Seq<Utxo>, j: int)
    requires
        0 <= j <= s.len(),
    ensures
        0 <= sum_value(s.take(j)) <= sum_value(s),
    decreases s.len(),
{
    lemma_sum_value_bounds(s.take(j));
    if j == s.len() {
        assert(s.take(j) =~= s);
    } else {
        assert(s.drop_last().take(j) =~= s.take(j));
        lemma_sum_value_take_bound(s.drop_last(), j);
    }
}

pub proof fn lemma_sum_balance_take_bound(s: Seq<RunicUtxo>, j: int)
    requires
        0 <= j <= s.len(),
    ensures
        0 <= sum_balance(s.take(j)) <= sum_balance(s),
    decreases s.len(),
{
    lemma_sum_balance_bounds(s.take(j));
    if j == s.len() {
        assert(s.take(j) =~= s);
    } else {
        assert(s.drop_last().take(j) =~= s.take(j));
        lemma_sum_balance_take_bound(s.drop_last(), j);
    }
}

pub proof fn lemma_unique_outpoints_remove(s: Seq<Utxo>, k: int)
    requires
        unique_outpoints(s),
        0 <= k < s.len(),
    ensures
        unique_outpoints(s.remove(k)),
{
    let t = s.remove(k);
    assert forall|i: int, j: int| 0 <= i < j < t.len() implies !same_outpoint(
        t[i].outpoint,
        t[j].outpoint,
    ) by {
        let si = if i < k { i } else { i + 1 };
        let sj = if j < k { j } else { j + 1 };
        assert(t[i] == s[si]);
        assert(t[j] == s[sj]);
    }
}

pub proof fn lemma_unique_outpoints_runic_remove(s: Seq<RunicUtxo>, k: int)
    requires
        unique_outpoints_runic(s),
        0 <= k < s.len(),
    ensures
        unique_outpoints_runic(s.remove(k)),
{
    let t = s.remove(k);
    assert forall|i: int, j: int| 0 <= i < j < t.len() implies !same_outpoint(
        t[i].utxo.outpoint,
        t[j].utxo.outpoint,
    ) by {
        let si = if i < k { i } else { i + 1 };
        let sj = if j < k { j } else { j + 1 };
        assert(t[i] == s[si]);
        assert(t[j] == s[sj]);
    }
}

proof fn lemma_has_outpoint_remove(s: Seq<Utxo>, k: int, op: Outpoint)
    requires
        0 <= k < s.len(),
        !same_outpoint(op, s[k].outpoint),
    ensures
        has_outpoint(s.remove(k), op) <==> has_outpoint(s, op),
{
    let t = s.remove(k);
    if has_outpoint(s, op) {
        let i = choose|i: int| 0 <= i < s.len() && same_outpoint(s[i].outpoint, op);
        assert(same_outpoint(op, s[i].outpoint));
        if i < k {
            assert(t[i] == s[i]);
        } else {
            assert(t[i - 1] == s[i]);
        }
    }
    if has_outpoint(t, op) {
        let i = choose|i: int| 0 <= i < t.len() && same_outpoint(t[i].outpoint, op);
        if i < k {
            assert(t[i] == s[i]);
        } else {
            assert(t[i] == s[i + 1]);
        }
    }
}

/// An update of one pool entry leaves every other address's lookup unchanged.
proof fn lemma_frame_btc(pre: UtxoManager, post: UtxoManager, at: int, a: Seq<char>)
    requires
        pre.wf(),
        post.btc@.len() >= pre.btc@.len(),
        post.btc@.len() <= pre.btc@.len() + 1,
        0 <= at < post.btc@.len(),
        forall|k: int|
            0 <= k < post.btc@.len() && k != at ==> post.btc@[k]
                == pre.btc@[if k < at { k } else { k - (post.btc@.len() - pre.btc@.len()) }],
        a != post.btc@[at].address@,
        post.btc@.len() == pre.btc@.len() ==> pre.btc@[at].address@ == post.btc@[at].address@,
    ensures
        post.btc_utxos(a) == pre.btc_utxos(a),
{
    let grew = post.btc@.len() - pre.btc@.len();
    if post.has_btc_entry(a) {
        let i = post.btc_index(a);
        assert(0 <= i < post.btc@.len() && post.btc@[i].address@ == a);
        assert(i != at);
        let pi = if i < at { i } else { i - grew };
        assert(pre.btc@[pi].address@ == a);
        assert(pre.has_btc_entry(a));
        let j = pre.btc_index(a);
        assert(0 <= j < pre.btc@.len() && pre.btc@[j].address@ == a);
        assert(j == pi);
        assert(post.btc_utxos(a) == pre.btc_utxos(a));
    } else {
        if pre.has_btc_entry(a) {
            let j = pre.btc_index(a);
            assert(0 <= j < pre.btc@.len() && pre.btc@[j].address@ == a);
            let i = if j < at { j } else { j + grew };
            if i != at {
                assert(post.btc@[i].address@ == a);
                assert(post.has_btc_entry(a));
            } else {
                assert(grew == 0);
                assert(pre.btc@[at].address@ == a);
            }
        }
    }
}

proof fn lemma_frame_runic(pre: UtxoManager, post: UtxoManager, at: int, a: Seq<char>, r: RuneId)
    requires
        pre.wf(),
        post.runic@.len() >= pre.runic@.len(),
        post.runic@.len() <= pre.runic@.len() + 1,
        0 <= at < post.runic@.len(),
        forall|k: int|
            0 <= k < post.runic@.len() && k != at ==> post.runic@[k]
                == pre.runic@[if k < at { k } else { k - (post.runic@.len() - pre.runic@.len()) }],
        a != post.runic@[at].address@,
        post.runic@.len() == pre.runic@.len() ==> pre.runic@[at].address@
            == post.runic@[at].address@,
    ensures
        post.runic_utxos(a, r) == pre.runic_utxos(a, r),
        post.rune_sets(a) == pre.rune_sets(a),
{
    let grew = post.runic@.len() - pre.runic@.len();
    if post.has_runic_entry(a) {
        let i = post.runic_index(a);
        assert(0 <= i < post.runic@.len() && post.runic@[i].address@ == a);
        assert(i != at);
        let pi = if i < at { i } else { i - grew };
        assert(pre.runic@[pi].address@ == a);
        assert(pre.has_runic_entry(a));
        let j = pre.runic_index(a);
        assert(0 <= j < pre.runic@.len() && pre.runic@[j].address@ == a);
        assert(j == pi);
        assert(post.rune_sets(a) == pre.rune_sets(a));
    } else {
        if pre.has_runic_entry(a) {
            let j = pre.runic_index(a);
            assert(0 <= j < pre.runic@.len() && pre.runic@[j].address@ == a);
            let i = if j < at { j } else { j + grew };
            if i != at {
                assert(post.runic@[i].address@ == a);
                assert(post.has_runic_entry(a));
            } else {
                assert(grew == 0);
                assert(pre.runic@[at].address@ == a);
            }
        }
        assert(post.rune_sets(a) =~= pre.rune_sets(a));
    }
}

/// Lookup of a rune in a set sequence whose entry at `sat` holds that rune.
proof fn lemma_rune_set_lookup(sets: Seq<RuneEntry>, sat: int, rid: RuneId)
    requires
        0 <= sat < sets.len(),
        sets[sat].runeid == rid,
        forall|p: int, q: int| 0 <= p < q < sets.len() ==> sets[p].runeid != sets[q].runeid,
    ensures
        exists|p: int| 0 <= p < sets.len() && sets[p].runeid == rid,
        (choose|p: int| 0 <= p < sets.len() && sets[p].runeid == rid) == sat,
{
    assert(sets[sat].runeid == rid);
    let p = choose|p: int| 0 <= p < sets.len() && sets[p].runeid == rid;
    assert(0 <= p < sets.len() && sets[p].runeid == rid);
    if p != sat {
        assert(sets[p].runeid != sets[sat].runeid || sets[sat].runeid != sets[p].runeid);
    }
}

/// An update of one rune set leaves every other rune's lookup unchanged.
proof fn lemma_rune_set_frame(
    pre_sets: Seq<RuneEntry>,
    post_sets: Seq<RuneEntry>,
    sat: int,
    r: RuneId,
)
    requires
        post_sets.len() >= pre_sets.len(),
        post_sets.len() <= pre_sets.len() + 1,
        0 <= sat < post_sets.len(),
        forall|k: int|
            0 <= k < post_sets.len() && k != sat ==> post_sets[k]
                == pre_sets[if k < sat { k } else { k - (post_sets.len() - pre_sets.len()) }],
        r != post_sets[sat].runeid,
        post_sets.len() == pre_sets.len() ==> pre_sets[sat].runeid == post_sets[sat].runeid,
        forall|p: int, q: int|
            0 <= p < q < pre_sets.len() ==> pre_sets[p].runeid != pre_sets[q].runeid,
    ensures
        (exists|p: int| 0 <= p < post_sets.len() && post_sets[p].runeid == r) <==> (exists|p: int|
            0 <= p < pre_sets.len() && pre_sets[p].runeid == r),
        forall|p1: int, p2: int|
            0 <= p1 < pre_sets.len() && pre_sets[p1].runeid == r && 0 <= p2 < post_sets.len()
                && post_sets[p2].runeid == r ==> pre_sets[p1].utxos@ == post_sets[p2].utxos@,
{
    let grew = post_sets.len() - pre_sets.len();
    if exists|p: int| 0 <= p < post_sets.len() && post_sets[p].runeid == r {
        let i = choose|p: int| 0 <= p < post_sets.len() && post_sets[p].runeid == r;
        assert(i != sat);
        let pi = if i < sat { i } else { i - grew };
        assert(pre_sets[pi].runeid == r);
    } else {
        if exists|p: int| 0 <= p < pre_sets.len() && pre_sets[p].runeid == r {
            let j = choose|p: int| 0 <= p < pre_sets.len() && pre_sets[p].runeid == r;
            let i = if j < sat { j } else { j + grew };
            if i != sat {
                assert(post_sets[i].runeid == r);
            } else {
                assert(grew == 0);
                assert(pre_sets[sat].runeid == r);
            }
        }
    }
    assert forall|p1: int, p2: int|
        0 <= p1 < pre_sets.len() && pre_sets[p1].runeid == r && 0 <= p2 < post_sets.len()
            && post_sets[p2].runeid == r implies pre_sets[p1].utxos@ == post_sets[p2].utxos@ by {
        assert(p2 != sat);
        let pi = if p2 < sat { p2 } else { p2 - grew };
        assert(post_sets[p2] == pre_sets[pi]);
        assert(p1 == pi);
    }
}

/// Two managers with the same bitcoin entries hold the same bitcoin pools.
proof fn lemma_btc_eq(pre: UtxoManager, post: UtxoManager)
    requires
        pre.wf(),
        post.btc@ == pre.btc@,
    ensures
        post.btc_all_frame(pre),
{
    assert forall|a: Seq<char>| post.btc_utxos(a) == pre.btc_utxos(a) by {
        if post.has_btc_entry(a) {
            let i = post.btc_index(a);
            assert(0 <= i < post.btc@.len() && post.btc@[i].address@ == a);
            assert(pre.btc@[i].address@ == a);
            assert(pre.has_btc_entry(a));
            let j = pre.btc_index(a);
            assert(0 <= j < pre.btc@.len() && pre.btc@[j].address@ == a);
            assert(j == i);
        } else {
            if pre.has_btc_entry(a) {
                let j = pre.btc_index(a);
                assert(post.btc@[j].address@ == a);
            }
        }
    }
}

/// Two managers with the same rune entries hold the same rune pools.
proof fn lemma_runic_eq(pre: UtxoManager, post: UtxoManager)
    requires
        pre.wf(),
        post.runic@ == pre.runic@,
    ensures
        post.runic_all_frame(pre),
        forall|a: Seq<char>| post.rune_sets(a) == pre.rune_sets(a),
{
    assert forall|a: Seq<char>| post.rune_sets(a) == pre.rune_sets(a) by {
        if post.has_runic_entry(a) {
            let i = post.runic_index(a);
            assert(0 <= i < post.runic@.len() && post.runic@[i].address@ == a);
            assert(pre.runic@[i].address@ == a);
            assert(pre.has_runic_entry(a));
            let j = pre.runic_index(a);
            assert(0 <= j < pre.runic@.len() && pre.runic@[j].address@ == a);
            assert(j == i);
        } else {
            if pre.has_runic_entry(a) {
                let j = pre.runic_index(a);
                assert(post.runic@[j].address@ == a);
            }
        }
    }
    assert forall|a: Seq<char>, r: RuneId| post.runic_utxos(a, r) == pre.runic_utxos(a, r) by {
        assert(post.rune_sets(a) == pre.rune_sets(a));
        if post.has_rune_set(a, r) {
            assert(pre.has_rune_set(a, r));
            assert(post.runic_utxos(a, r) == pre.runic_utxos(a, r)) by {
                let p1 = post.rune_set_index(a, r);
                let p2 = pre.rune_set_index(a, r);
                assert(0 <= p1 < post.rune_sets(a).len() && post.rune_sets(a)[p1].runeid == r);
                assert(0 <= p2 < pre.rune_sets(a).len() && pre.rune_sets(a)[p2].runeid == r);
                if pre.has_runic_entry(a) {
                    let j = pre.runic_index(a);
                    assert(rune_entry_wf(pre.runic@[j]));
                    assert(p1 == p2);
                }
            }
        } else {
            if pre.has_rune_set(a, r) {
                assert(post.has_rune_set(a, r));
            }
        }
    }
}

} // verus!

verus! {

broadcast use vstd::multiset::group_multiset_axioms;

/// The pool invariants, read off for one address.
pub proof fn lemma_pool_entry_wf(m: UtxoManager, addr: Seq<char>)
    requires
        m.wf(),
    ensures
        unique_outpoints(m.btc_utxos(addr)),
        sum_value(m.btc_utxos(addr)) <= u64::MAX,
        sum_value(m.btc_utxos(addr)) >= 0,
{
    crate::types::lemma_sum_value_bounds(m.btc_utxos(addr));
    if m.has_btc_entry(addr) {
        let i = m.btc_index(addr);
        assert(0 <= i < m.btc@.len() && m.btc@[i].address@ == addr);
        assert(unique_outpoints(m.btc@[i].utxos@));
        assert(sum_value(m.btc@[i].utxos@) <= u64::MAX);
    }
}

pub proof fn lemma_pool_rune_entry_wf(m: UtxoManager, addr: Seq<char>, rid: RuneId)
    requires
        m.wf(),
    ensures
        unique_outpoints_runic(m.runic_utxos(addr, rid)),
        sum_balance(m.runic_utxos(addr, rid)) <= u128::MAX,
        sum_balance(m.runic_utxos(addr, rid)) >= 0,
{
    crate::types::lemma_sum_balance_bounds(m.runic_utxos(addr, rid));
    if m.has_runic_entry(addr) {
        let i = m.runic_index(addr);
        assert(0 <= i < m.runic@.len() && m.runic@[i].address@ == addr);
        assert(rune_entry_wf(m.runic@[i]));
        if m.has_rune_set(addr, rid) {
            let p = m.rune_set_index(addr, rid);
            assert(0 <= p < m.rune_sets(addr).len() && m.rune_sets(addr)[p].runeid == rid);
            assert(unique_outpoints_runic(m.runic@[i].runes@[p].utxos@));
            assert(sum_balance(m.runic@[i].runes@[p].utxos@) <= u128::MAX);
        }
    }
}

/// Whether an observed output is already classified as rune-bearing in the
/// given rune sets (by outpoint identity, under any rune).
pub open spec fn utxo_is_runic(sets: Seq<RuneEntry>, u: Utxo) -> bool {
    exists|p: int| 0 <= p < sets.len() && has_outpoint_runic(#[trigger] sets[p].utxos@, u.outpoint)
}

/// The observed outputs that are not already classified as rune-bearing, in
/// observation order.
pub open spec fn keep_non_runic(sets: Seq<RuneEntry>, us: Seq<Utxo>) -> Seq<Utxo>
    decreases us.len(),
{
    if us.len() == 0 {
        us
    } else {
        let front = keep_non_runic(sets, us.drop_last());
        if utxo_is_runic(sets, us.last()) {
            front
        } else {
            front.push(us.last())
        }
    }
}

/// What is kept is never worth more than what was observed.
pub proof fn lemma_keep_non_runic_sum(sets: Seq<RuneEntry>, us: Seq<Utxo>)
    ensures
        0 <= sum_value(keep_non_runic(sets, us)),
        sum_value(keep_non_runic(sets, us)) <= sum_value(us),
    decreases us.len(),
{
    crate::types::lemma_sum_value_bounds(us);
    if us.len() > 0 {
        lemma_keep_non_runic_sum(sets, us.drop_last());
        crate::types::lemma_sum_value_bounds(us.drop_last());
        if !utxo_is_runic(sets, us.last()) {
            let front = keep_non_runic(sets, us.drop_last());
            assert(front.push(us.last()).drop_last() =~= front);
        }
    }
}

impl UtxoManager {
    /// Ingests freshly observed chain outputs into an address's bitcoin pool,
    /// never re-ingesting an outpoint already classified as rune-bearing for
    /// that address: each output stays a member of exactly one set.
    pub fn record_observed_utxos(&mut self, addr: &String, utxos: Vec<Utxo>)
        requires
            old(self).wf(),
            sum_value(old(self).btc_utxos(addr@)) + sum_value(utxos@) <= u64::MAX,
        ensures
            final(self).wf(),
            final(self).btc_utxos(addr@) == merge_utxos(
                old(self).btc_utxos(addr@),
                keep_non_runic(old(self).rune_sets(addr@), utxos@),
            ),
            final(self).btc_frame(*old(self), addr@),
            final(self).runic_all_frame(*old(self)),
    {
        let ghost us = utxos@;
        let ghost sets0 = self.rune_sets(addr@);
        let mut kept: Vec<Utxo> = Vec::new();
        let mut rest = utxos;
        let n = rest.len();
        let mut j: usize = 0;
        proof {
            assert(us.take(0) =~= Seq::<Utxo>::empty());
        }
        while j < n
            invariant
                self.wf(),
                *self == *old(self),
                sets0 == self.rune_sets(addr@),
                n == us.len(),
                j <= n,
                rest@ =~= us.skip(j as int),
                kept@ == keep_non_runic(sets0, us.take(j as int)),
            decreases n - j,
        {
            let u = rest.remove(0);
            proof {
                assert(u == us[j as int]);
                assert(rest@ =~= us.skip(j + 1));
                assert(us.take(j + 1).drop_last() =~= us.take(j as int));
                assert(us.take(j + 1).last() == us[j as int]);
            }
            let runic = self.is_recorded_as_runic(addr, &u);
            proof {
                assert(runic == utxo_is_runic(sets0, u));
            }
            if !runic {
                kept.push(u);
            }
            j += 1;
        }
        proof {
            assert(us.take(n as int) =~= us);
            lemma_keep_non_runic_sum(sets0, us);
        }
        self.record_bitcoin_utxos(addr, kept);
    }
}

/// Why a selection could not be completed.
pub enum SelectError {
    /// The pool ran out before the target was reached; it has been restored.
    Insufficient,
    /// A held output carries a transaction id that is not 32 bytes; the pool
    /// has been restored.
    MalformedUtxo,
    /// The bitcoin value carried by the selected rune outputs does not fit in
    /// 64 bits; the pool has been restored.
    ValueOverflow,
}

/// Extracts plain outputs smallest-first until their combined value exceeds
/// `target` (or merely reaches it, when `at_or_above` is set, or when the pool
/// runs out exactly at the target). On failure the pool is restored, element
/// for element.
pub fn select_bitcoin(pool: &mut UtxoManager, addr: &String, target: u64, at_or_above: bool) -> (r:
    Result<(Vec<Utxo>, u64), SelectError>)
    requires
        old(pool).wf(),
    ensures
        final(pool).wf(),
        final(pool).btc_frame(*old(pool), addr@),
        final(pool).runic_all_frame(*old(pool)),
        match r {
            Ok((taken, total)) => {
                let orig = old(pool).btc_utxos(addr@);
                let c = crate::types::smallest_first(orig, 0, target as int, at_or_above);
                &&& c.reached
                &&& taken@ == c.taken
                &&& final(pool).btc_utxos(addr@) == c.rest
                &&& total as int == sum_value(taken@)
                &&& total >= target
                &&& unique_outpoints(taken@)
                &&& txids_wf(taken@)
                &&& forall|i: int|
                    0 <= i < taken@.len() ==> !has_outpoint(
                        final(pool).btc_utxos(addr@),
                        #[trigger] taken@[i].outpoint,
                    )
                &&& final(pool).btc_utxos(addr@).to_multiset().add(taken@.to_multiset())
                    == orig.to_multiset()
                &&& sum_value(final(pool).btc_utxos(addr@)) == sum_value(orig) - total
            },
            Err(e) => {
                let orig = old(pool).btc_utxos(addr@);
                &&& final(pool).btc_utxos(addr@).to_multiset() == orig.to_multiset()
                &&& sum_value(final(pool).btc_utxos(addr@)) == sum_value(orig)
                &&& match e {
                    SelectError::Insufficient => sum_value(orig) < target
                        && !crate::types::smallest_first(orig, 0, target as int, at_or_above).reached,
                    SelectError::MalformedUtxo => exists|i: int|
                        0 <= i < orig.len() && orig[i].outpoint.txid@.len() != 32,
                    SelectError::ValueOverflow => false,
                }
            },
        },
{
    let ghost orig = old(pool).btc_utxos(addr@);
    proof {
        lemma_pool_entry_wf(*pool, addr@);
        assert(pool.btc_utxos(addr@).to_multiset().add(Seq::<Utxo>::empty().to_multiset())
            =~= orig.to_multiset()) by {
            Seq::<Utxo>::empty().to_multiset_ensures();
        }
    }
    let mut taken: Vec<Utxo> = Vec::new();
    let mut total: u64 = 0;
    proof {
        let c0 = crate::types::smallest_first(orig, 0, target as int, at_or_above);
        assert(taken@ + c0.taken =~= c0.taken);
    }
    loop
        invariant
            pool.wf(),
            pool.btc_frame(*old(pool), addr@),
            pool.runic_all_frame(*old(pool)),
            ({
                let c = crate::types::smallest_first(
                    pool.btc_utxos(addr@),
                    total as int,
                    target as int,
                    at_or_above,
                );
                let full = crate::types::smallest_first(orig, 0, target as int, at_or_above);
                full.taken == taken@ + c.taken && full.rest == c.rest && full.reached == c.reached
            }),
            total as int == sum_value(taken@),
            sum_value(pool.btc_utxos(addr@)) == sum_value(orig) - total,
            pool.btc_utxos(addr@).to_multiset().add(taken@.to_multiset()) == orig.to_multiset(),
            unique_outpoints(taken@),
            txids_wf(taken@),
            forall|i: int|
                0 <= i < taken@.len() ==> !has_outpoint(
                    pool.btc_utxos(addr@),
                    #[trigger] taken@[i].outpoint,
                ),
            sum_value(orig) <= u64::MAX,
            orig == old(pool).btc_utxos(addr@),
            total <= sum_value(orig),
        decreases pool.btc_utxos(addr@).len(),
    {
        let ghost pre_loop = *pool;
        let ghost s = pool.btc_utxos(addr@);
        match pool.get_bitcoin_utxo(addr) {
            None => {
                proof {
                    assert(pool.btc_utxos(addr@).len() == 0);
                    assert(crate::types::smallest_first(
                        pool.btc_utxos(addr@),
                        total as int,
                        target as int,
                        at_or_above,
                    ).taken =~= Seq::<Utxo>::empty());
                    assert(taken@ + Seq::<Utxo>::empty() =~= taken@);
                }
                if total < target {
                    proof {
                        crate::types::lemma_sum_value_bounds(taken@);
                        lemma_pool_entry_wf(*pool, addr@);
                    }
                    restore_bitcoin(pool, addr, taken, Ghost(orig));
                    return Err(SelectError::Insufficient);
                }
                return Ok((taken, total));
            },
            Some(u) => {
                let ghost k = min_value_index(s);
                let ghost cs = crate::types::smallest_first(
                    s,
                    total as int,
                    target as int,
                    at_or_above,
                );
                proof {
                    lemma_min_value_index(s);
                    crate::types::lemma_sum_value_remove(s, k);
                    crate::types::lemma_sum_value_bounds(s.remove(k));
                    crate::types::lemma_take_step_multiset(s, k, taken@, orig);
                    crate::types::lemma_remove_has_outpoint(s, k);
                    assert(unique_outpoints(s)) by {
                        lemma_pool_entry_wf(pre_loop, addr@);
                    }
                    assert(!has_outpoint(taken@, u.outpoint)) by {
                        if has_outpoint(taken@, u.outpoint) {
                            let i = choose|i: int|
                                0 <= i < taken@.len() && same_outpoint(
                                    taken@[i].outpoint,
                                    u.outpoint,
                                );
                            assert(!has_outpoint(s, taken@[i].outpoint));
                            assert(same_outpoint(s[k].outpoint, u.outpoint));
                        }
                    }
                }
                if u.outpoint.txid.len() != 32 {
                    let ghost s2 = pool.btc_utxos(addr@);
                    proof {
                        assert(s2.to_multiset().add(taken@.push(u).to_multiset())
                            == orig.to_multiset()) by {
                            crate::types::lemma_take_step_multiset(s, k, taken@, orig);
                        }
                        assert(orig.to_multiset().count(u) > 0) by {
                            s.to_multiset_ensures();
                            assert(s.contains(u));
                        }
                        assert(orig.contains(u)) by {
                            orig.to_multiset_ensures();
                        }
                        assert(exists|i: int|
                            0 <= i < orig.len() && orig[i].outpoint.txid@.len() != 32) by {
                            let i = choose|i: int| 0 <= i < orig.len() && orig[i] == u;
                            assert(orig[i].outpoint.txid@.len() != 32);
                        }
                        crate::types::lemma_sum_value_bounds(taken@.push(u));
                        assert(taken@.push(u).drop_last() =~= taken@);
                        lemma_pool_entry_wf(*pool, addr@);
                        assert forall|i: int| 0 <= i < taken@.push(u).len() implies !has_outpoint(
                            pool.btc_utxos(addr@),
                            #[trigger] taken@.push(u)[i].outpoint,
                        ) by {
                            if i < taken@.len() {
                                assert(taken@.push(u)[i] == taken@[i]);
                            }
                        }
                        assert(unique_outpoints(taken@.push(u))) by {
                            assert forall|i: int, j: int|
                                0 <= i < j < taken@.push(u).len() implies !same_outpoint(
                                taken@.push(u)[i].outpoint,
                                taken@.push(u)[j].outpoint,
                            ) by {
                                if j == taken@.len() as int {
                                    assert(taken@.push(u)[i] == taken@[i]);
                                    assert(!has_outpoint(taken@, u.outpoint));
                                }
                            }
                        }
                    }
                    let mut taken2 = taken;
                    taken2.push(u);
                    restore_bitcoin(pool, addr, taken2, Ghost(orig));
                    return Err(SelectError::MalformedUtxo);
                }
                proof {
                    assert(u.value as int <= sum_value(s)) by {
                        crate::types::lemma_sum_value_bounds(s);
                    }
                    assert(total + u.value <= sum_value(orig));
                }
                total = total + u.value;
                let ghost taken0 = taken@;
                taken.push(u);
                proof {
                    assert(taken@ =~= taken0.push(u));
                    assert(taken@.drop_last() =~= taken0);
                    assert(sum_value(taken@) == sum_value(taken0) + u.value);
                    assert forall|i: int| 0 <= i < taken@.len() implies !has_outpoint(
                        pool.btc_utxos(addr@),
                        #[trigger] taken@[i].outpoint,
                    ) by {
                        if i < taken0.len() {
                            assert(taken@[i] == taken0[i]);
                            assert(!has_outpoint(s, taken0[i].outpoint));
                        } else {
                            assert(taken@[i] == u);
                        }
                    }
                    assert(unique_outpoints(taken@)) by {
                        assert forall|i: int, j: int|
                            0 <= i < j < taken@.len() implies !same_outpoint(
                            taken@[i].outpoint,
                            taken@[j].outpoint,
                        ) by {
                            if j == taken0.len() as int {
                                assert(taken@[i] == taken0[i]);
                                assert(!has_outpoint(taken0, u.outpoint));
                            } else {
                                assert(taken@[i] == taken0[i]);
                                assert(taken@[j] == taken0[j]);
                            }
                        }
                    }
                    assert(txids_wf(taken@)) by {
                        assert forall|i: int| 0 <= i < taken@.len() implies #[trigger] taken@[i]
                            .outpoint.txid@.len() == 32 by {
                            if i < taken0.len() {
                                assert(taken@[i] == taken0[i]);
                            } else {
                                assert(taken@[i] == u);
                            }
                        }
                    }
                }
                let done = if at_or_above {
                    total >= target
                } else {
                    total > target
                };
                proof {
                    if done {
                        assert(cs.taken =~= seq![u]);
                        assert(taken0 + cs.taken =~= taken@);
                    } else {
                        let c2 = crate::types::smallest_first(
                            pool.btc_utxos(addr@),
                            total as int,
                            target as int,
                            at_or_above,
                        );
                        assert(cs.taken =~= seq![u] + c2.taken);
                        assert(taken0 + cs.taken =~= taken@ + c2.taken);
                    }
                }
                if done {
                    return Ok((taken, total));
                }
            },
        }
    }
}

/// Puts extracted outputs back, restoring the pool's contents exactly.
pub(crate) fn restore_bitcoin(
    pool: &mut UtxoManager,
    addr: &String,
    taken: Vec<Utxo>,
    Ghost(orig): Ghost<Seq<Utxo>>,
)
    requires
        old(pool).wf(),
        unique_outpoints(taken@),
        sum_value(taken@) >= 0,
        old(pool).btc_utxos(addr@).to_multiset().add(taken@.to_multiset()) == orig.to_multiset(),
        sum_value(old(pool).btc_utxos(addr@)) == sum_value(orig) - sum_value(taken@),
        sum_value(orig) <= u64::MAX,
        forall|i: int|
            0 <= i < taken@.len() ==> !has_outpoint(
                old(pool).btc_utxos(addr@),
                #[trigger] taken@[i].outpoint,
            ),
    ensures
        final(pool).wf(),
        final(pool).btc_frame(*old(pool), addr@),
        final(pool).runic_all_frame(*old(pool)),
        final(pool).btc_utxos(addr@) == old(pool).btc_utxos(addr@) + taken@,
        final(pool).btc_utxos(addr@).to_multiset() == orig.to_multiset(),
        sum_value(final(pool).btc_utxos(addr@)) == sum_value(orig),
{
    let ghost cur = pool.btc_utxos(addr@);
    proof {
        lemma_pool_entry_wf(*pool, addr@);
        crate::types::lemma_sum_value_bounds(taken@);
        crate::types::lemma_merge_utxos_disjoint(cur, taken@);
    }
    pool.record_bitcoin_utxos(addr, taken);
    proof {
        assert(pool.btc_utxos(addr@) == merge_utxos(cur, taken@));
        assert(merge_utxos(cur, taken@) =~= cur + taken@);
        crate::types::lemma_concat_to_multiset(cur, taken@);
        assert(pool.btc_utxos(addr@).to_multiset() =~= orig.to_multiset());
    }
}

} // verus!

verus! {

/// Extracts rune-bearing outputs smallest-balance-first until the combined
/// balance exceeds `target` (or the pool runs out exactly at it). Also reports
/// the bitcoin value the selected outputs carry. On failure the pool is
/// restored, element for element.
pub fn select_runic(pool: &mut UtxoManager, addr: &String, runeid: RuneId, target: u128) -> (r:
    Result<(Vec<RunicUtxo>, u128, u64), SelectError>)
    requires
        old(pool).wf(),
    ensures
        final(pool).wf(),
        final(pool).runic_frame(*old(pool), addr@, runeid),
        final(pool).btc_all_frame(*old(pool)),
        match r {
            Ok((taken, total, carried)) => {
                let orig = old(pool).runic_utxos(addr@, runeid);
                let c = crate::types::smallest_balance_first(orig, 0, target as int);
                &&& c.reached
                &&& taken@ == c.taken
                &&& final(pool).runic_utxos(addr@, runeid) == c.rest
                &&& total as int == sum_balance(taken@)
                &&& carried as int == sum_runic_value(taken@)
                &&& total >= target
                &&& unique_outpoints_runic(taken@)
                &&& txids_wf_runic(taken@)
                &&& forall|i: int|
                    0 <= i < taken@.len() ==> !has_outpoint_runic(
                        final(pool).runic_utxos(addr@, runeid),
                        #[trigger] taken@[i].utxo.outpoint,
                    )
                &&& final(pool).runic_utxos(addr@, runeid).to_multiset().add(taken@.to_multiset())
                    == orig.to_multiset()
                &&& sum_balance(final(pool).runic_utxos(addr@, runeid)) == sum_balance(orig)
                    - total
            },
            Err(e) => {
                let orig = old(pool).runic_utxos(addr@, runeid);
                &&& final(pool).runic_utxos(addr@, runeid).to_multiset() == orig.to_multiset()
                &&& sum_balance(final(pool).runic_utxos(addr@, runeid)) == sum_balance(orig)
                &&& match e {
                    SelectError::Insufficient => sum_balance(orig) < target
                        && !crate::types::smallest_balance_first(orig, 0, target as int).reached,
                    SelectError::MalformedUtxo => exists|i: int|
                        0 <= i < orig.len() && orig[i].utxo.outpoint.txid@.len() != 32,
                    SelectError::ValueOverflow => sum_runic_value(orig) > u64::MAX,
                }
            },
        },
{
    let ghost orig = old(pool).runic_utxos(addr@, runeid);
    proof {
        lemma_pool_rune_entry_wf(*pool, addr@, runeid);
        assert(pool.runic_utxos(addr@, runeid).to_multiset().add(
            Seq::<RunicUtxo>::empty().to_multiset(),
        ) =~= orig.to_multiset()) by {
            Seq::<RunicUtxo>::empty().to_multiset_ensures();
        }
    }
    let mut taken: Vec<RunicUtxo> = Vec::new();
    let mut total: u128 = 0;
    let mut carried: u64 = 0;
    proof {
        let c0 = crate::types::smallest_balance_first(orig, 0, target as int);
        assert(taken@ + c0.taken =~= c0.taken);
    }
    loop
        invariant
            pool.wf(),
            pool.runic_frame(*old(pool), addr@, runeid),
            pool.btc_all_frame(*old(pool)),
            ({
                let c = crate::types::smallest_balance_first(
                    pool.runic_utxos(addr@, runeid),
                    total as int,
                    target as int,
                );
                let full = crate::types::smallest_balance_first(orig, 0, target as int);
                full.taken == taken@ + c.taken && full.rest == c.rest && full.reached == c.reached
            }),
            total as int == sum_balance(taken@),
            carried as int == sum_runic_value(taken@),
            sum_balance(pool.runic_utxos(addr@, runeid)) == sum_balance(orig) - total,
            sum_runic_value(pool.runic_utxos(addr@, runeid)) == sum_runic_value(orig)
                - carried,
            pool.runic_utxos(addr@, runeid).to_multiset().add(taken@.to_multiset())
                == orig.to_multiset(),
            unique_outpoints_runic(taken@),
            txids_wf_runic(taken@),
            forall|i: int|
                0 <= i < taken@.len() ==> !has_outpoint_runic(
                    pool.runic_utxos(addr@, runeid),
                    #[trigger] taken@[i].utxo.outpoint,
                ),
            sum_balance(orig) <= u128::MAX,
            orig == old(pool).runic_utxos(addr@, runeid),
            total <= sum_balance(orig),
        decreases pool.runic_utxos(addr@, runeid).len(),
    {
        let ghost pre_loop = *pool;
        let ghost s = pool.runic_utxos(addr@, runeid);
        match pool.get_runic_utxo(addr, runeid) {
            None => {
                proof {
                    assert(pool.runic_utxos(addr@, runeid).len() == 0);
                    assert(crate::types::smallest_balance_first(
                        pool.runic_utxos(addr@, runeid),
                        total as int,
                        target as int,
                    ).taken =~= Seq::<RunicUtxo>::empty());
                    assert(taken@ + Seq::<RunicUtxo>::empty() =~= taken@);
                }
                if total < target {
                    proof {
                        crate::types::lemma_sum_balance_bounds(taken@);
                        lemma_pool_rune_entry_wf(*pool, addr@, runeid);
                    }
                    restore_runic(pool, addr, runeid, taken, Ghost(orig));
                    return Err(SelectError::Insufficient);
                }
                return Ok((taken, total, carried));
            },
            Some(u) => {
                let ghost k = min_balance_index(s);
                let ghost cs = crate::types::smallest_balance_first(s, total as int, target as int);
                proof {
                    lemma_min_balance_index(s);
                    crate::types::lemma_sum_balance_remove(s, k);
                    crate::types::lemma_sum_balance_bounds(s.remove(k));
                    crate::types::lemma_take_step_multiset_runic(s, k, taken@, orig);
                    crate::types::lemma_remove_has_outpoint_runic(s, k);
                    assert(unique_outpoints_runic(s)) by {
                        lemma_pool_rune_entry_wf(pre_loop, addr@, runeid);
                    }
                    assert(!has_outpoint_runic(taken@, u.utxo.outpoint)) by {
                        if has_outpoint_runic(taken@, u.utxo.outpoint) {
                            let i = choose|i: int|
                                0 <= i < taken@.len() && same_outpoint(
                                    taken@[i].utxo.outpoint,
                                    u.utxo.outpoint,
                                );
                            assert(!has_outpoint_runic(s, taken@[i].utxo.outpoint));
                            assert(same_outpoint(s[k].utxo.outpoint, u.utxo.outpoint));
                        }
                    }
                    crate::types::lemma_sum_balance_bounds(s);
                }
                let bad_txid = u.utxo.outpoint.txid.len() != 32;
                let next_carried = if bad_txid {
                    None
                } else {
                    carried.checked_add(u.utxo.value)
                };
                if bad_txid || next_carried.is_none() {
                    let ghost s2 = pool.runic_utxos(addr@, runeid);
                    proof {
                        assert(orig.to_multiset().count(u) > 0) by {
                            s.to_multiset_ensures();
                            assert(s.contains(u));
                        }
                        assert(orig.contains(u)) by {
                            orig.to_multiset_ensures();
                        }
                        if !bad_txid {
                            assert(sum_runic_value(orig) > u64::MAX) by {
                                assert(carried + u.utxo.value > u64::MAX);
                                assert(sum_runic_value(s2) >= 0) by {
                                    crate::types::lemma_sum_balance_bounds(s2);
                                }
                                assert(u.utxo.value as int <= sum_runic_value(s));
                            }
                        } else {
                            assert(exists|i: int|
                                0 <= i < orig.len() && orig[i].utxo.outpoint.txid@.len() != 32) by {
                                let i = choose|i: int| 0 <= i < orig.len() && orig[i] == u;
                                assert(orig[i].utxo.outpoint.txid@.len() != 32);
                            }
                        }
                        crate::types::lemma_sum_balance_bounds(taken@.push(u));
                        assert(taken@.push(u).drop_last() =~= taken@);
                        lemma_pool_rune_entry_wf(*pool, addr@, runeid);
                        assert forall|i: int| 0 <= i < taken@.push(u).len() implies
                            !has_outpoint_runic(
                            pool.runic_utxos(addr@, runeid),
                            #[trigger] taken@.push(u)[i].utxo.outpoint,
                        ) by {
                            if i < taken@.len() {
                                assert(taken@.push(u)[i] == taken@[i]);
                            }
                        }
                        assert(unique_outpoints_runic(taken@.push(u))) by {
                            assert forall|i: int, j: int|
                                0 <= i < j < taken@.push(u).len() implies !same_outpoint(
                                taken@.push(u)[i].utxo.outpoint,
                                taken@.push(u)[j].utxo.outpoint,
                            ) by {
                                if j == taken@.len() as int {
                                    assert(taken@.push(u)[i] == taken@[i]);
                                    assert(!has_outpoint_runic(taken@, u.utxo.outpoint));
                                }
                            }
                        }
                    }
                    let e = if bad_txid {
                        SelectError::MalformedUtxo
                    } else {
                        SelectError::ValueOverflow
                    };
                    let mut taken2 = taken;
                    taken2.push(u);
                    restore_runic(pool, addr, runeid, taken2, Ghost(orig));
                    return Err(e);
                }
                proof {
                    assert(u.balance as int <= sum_balance(s));
                    assert(total + u.balance <= sum_balance(orig));
                }
                total = total + u.balance;
                carried = match next_carried {
                    Some(c) => c,
                    None => 0,
                };
                let ghost taken0 = taken@;
                taken.push(u);
                proof {
                    assert(taken@ =~= taken0.push(u));
                    assert(taken@.drop_last() =~= taken0);
                    assert(sum_balance(taken@) == sum_balance(taken0) + u.balance);
                    assert(sum_runic_value(taken@) == sum_runic_value(taken0) + u.utxo.value);
                    assert forall|i: int| 0 <= i < taken@.len() implies !has_outpoint_runic(
                        pool.runic_utxos(addr@, runeid),
                        #[trigger] taken@[i].utxo.outpoint,
                    ) by {
                        if i < taken0.len() {
                            assert(taken@[i] == taken0[i]);
                            assert(!has_outpoint_runic(s, taken0[i].utxo.outpoint));
                        } else {
                            assert(taken@[i] == u);
                        }
                    }
                    assert(unique_outpoints_runic(taken@)) by {
                        assert forall|i: int, j: int|
                            0 <= i < j < taken@.len() implies !same_outpoint(
                            taken@[i].utxo.outpoint,
                            taken@[j].utxo.outpoint,
                        ) by {
                            if j == taken0.len() as int {
                                assert(taken@[i] == taken0[i]);
                                assert(!has_outpoint_runic(taken0, u.utxo.outpoint));
                            } else {
                                assert(taken@[i] == taken0[i]);
                                assert(taken@[j] == taken0[j]);
                            }
                        }
                    }
                    assert(txids_wf_runic(taken@)) by {
                        assert forall|i: int| 0 <= i < taken@.len() implies #[trigger] taken@[i]
                            .utxo.outpoint.txid@.len() == 32 by {
                            if i < taken0.len() {
                                assert(taken@[i] == taken0[i]);
                            } else {
                                assert(taken@[i] == u);
                            }
                        }
                    }
                }
                proof {
                    if total > target {
                        assert(cs.taken =~= seq![u]);
                        assert(taken0 + cs.taken =~= taken@);
                    } else {
                        let c2 = crate::types::smallest_balance_first(
                            pool.runic_utxos(addr@, runeid),
                            total as int,
                            target as int,
                        );
                        assert(cs.taken =~= seq![u] + c2.taken);
                        assert(taken0 + cs.taken =~= taken@ + c2.taken);
                    }
                }
                if total > target {
                    return Ok((taken, total, carried));
                }
            },
        }
    }
}

/// Puts extracted rune outputs back, restoring the pool's contents exactly.
pub(crate) fn restore_runic(
    pool: &mut UtxoManager,
    addr: &String,
    runeid: RuneId,
    taken: Vec<RunicUtxo>,
    Ghost(orig): Ghost<Seq<RunicUtxo>>,
)
    requires
        old(pool).wf(),
        unique_outpoints_runic(taken@),
        old(pool).runic_utxos(addr@, runeid).to_multiset().add(taken@.to_multiset())
            == orig.to_multiset(),
        sum_balance(old(pool).runic_utxos(addr@, runeid)) == sum_balance(orig) - sum_balance(
            taken@,
        ),
        sum_balance(taken@) >= 0,
        sum_balance(orig) <= u128::MAX,
        forall|i: int|
            0 <= i < taken@.len() ==> !has_outpoint_runic(
                old(pool).runic_utxos(addr@, runeid),
                #[trigger] taken@[i].utxo.outpoint,
            ),
    ensures
        final(pool).wf(),
        final(pool).runic_frame(*old(pool), addr@, runeid),
        final(pool).btc_all_frame(*old(pool)),
        final(pool).runic_utxos(addr@, runeid) == old(pool).runic_utxos(addr@, runeid) + taken@,
        final(pool).runic_utxos(addr@, runeid).to_multiset() == orig.to_multiset(),
        sum_balance(final(pool).runic_utxos(addr@, runeid)) == sum_balance(orig),
{
    let ghost cur = pool.runic_utxos(addr@, runeid);
    proof {
        lemma_pool_rune_entry_wf(*pool, addr@, runeid);
        crate::types::lemma_sum_balance_bounds(taken@);
        crate::types::lemma_merge_runic_utxos_disjoint(cur, taken@);
    }
    pool.record_runic_utxos(addr, runeid, taken);
    proof {
        assert(pool.runic_utxos(addr@, runeid) == merge_runic_utxos(cur, taken@));
        assert(merge_runic_utxos(cur, taken@) =~= cur + taken@);
        crate::types::lemma_concat_to_multiset(cur, taken@);
        assert(pool.runic_utxos(addr@, runeid).to_multiset() =~= orig.to_multiset());
    }
}

} // verus!
