//! Replay protection through a bounded record of the ids already seen.
//!
//! Membership is checked in a hash set; a queue beside it keeps the order in
//! which ids arrived so that the oldest can be pruned once the record is over
//! its limit. Pruning removes `max_size * prune_percent / 100` of the oldest
//! ids, or all of them when `prune_percent` is 100.

use std::collections::{HashSet, VecDeque};
use vstd::prelude::*;

verus! {

broadcast use vstd::std_specs::hash::group_hash_axioms;

/// The ids left after pruning `order` (oldest first) against a limit of
/// `max_size` ids and a prune share of `percent`.
pub open spec fn pruned(order: Seq<u64>, max_size: nat, percent: nat) -> Seq<u64> {
    if order.len() <= max_size {
        order
    } else if percent == 100 {
        Seq::empty()
    } else {
        let k = max_size * percent / 100;
        if k >= order.len() {
            Seq::empty()
        } else {
            order.skip(k as int)
        }
    }
}

/// One registration of `id`: whether it is new, and the ids tracked afterwards.
pub open spec fn accept_step(order: Seq<u64>, max_size: nat, percent: nat, id: u64) -> (
    bool,
    Seq<u64>,
) {
    let p = pruned(order, max_size, percent);
    if p.contains(id) {
        (false, p)
    } else {
        (true, p.push(id))
    }
}

/// Tracks recently-seen ids and rejects duplicates.
#[derive(Debug)]
pub struct Nonce {
    seen: HashSet<u64>,
    order: VecDeque<u64>,
    max_size: usize,
    prune_percent: u8,
}

impl Nonce {
    /// The ids tracked, oldest first.
    pub closed spec fn ids(&self) -> Seq<u64> {
        self.order@
    }

    /// The limit above which the record is pruned.
    pub closed spec fn limit(&self) -> nat {
        self.max_size as nat
    }

    /// The share of the limit pruned at a time, in percent.
    pub closed spec fn percent(&self) -> nat {
        self.prune_percent as nat
    }

    /// The set and the queue hold the same ids, none twice.
    pub closed spec fn wf(&self) -> bool {
        &&& self.seen@ == self.order@.to_set()
        &&& self.order@.no_duplicates()
        &&& self.prune_percent <= 100
    }

    /// A record holding up to `max_size` ids, pruning `prune_percent` (clamped to
    /// at most 100) of `max_size` oldest entries once over the limit.
    pub fn new(max_size: usize, prune_percent: u8) -> (r: Nonce)
        ensures
            r.wf(),
            r.ids() == Seq::<u64>::empty(),
            r.limit() == max_size,
            r.percent() == if prune_percent > 100 {
                100
            } else {
                prune_percent
            },
    {
        let pct = if prune_percent > 100 {
            100
        } else {
            prune_percent
        };
        let r = Nonce { seen: HashSet::new(), order: VecDeque::new(), max_size, prune_percent: pct };
        assert(r.order@.to_set() =~= Set::<u64>::empty());
        r
    }

    /// Registers `id`: `true` if it is new (processing should continue), `false`
    /// if it was seen before (a replay).
    pub fn continue_on(&mut self, id: u64) -> (r: bool)
        requires
            old(self).wf(),
        ensures
            final(self).wf(),
            final(self).limit() == old(self).limit(),
            final(self).percent() == old(self).percent(),
            (r, final(self).ids()) == accept_step(
                old(self).ids(),
                old(self).limit(),
                old(self).percent(),
                id,
            ),
    {
        self.prune();
        if self.seen.contains(&id) {
            return false;
        }
        self.seen.insert(id);
        let ghost before = self.order@;
        self.order.push_back(id);
        proof {
            assert forall|x: u64| #[trigger] self.order@.contains(x) <==> (before.contains(x) || x
                == id) by {
                if x == id {
                    assert(self.order@[before.len() as int] == id);
                }
                if before.contains(x) {
                    let k = choose|k: int| 0 <= k < before.len() && before[k] == x;
                    assert(self.order@[k] == x);
                }
                if self.order@.contains(x) && x != id {
                    let k = choose|k: int| 0 <= k < self.order@.len() && self.order@[k] == x;
                    assert(before[k] == x);
                }
            }
            assert(self.order@.to_set() =~= before.to_set().insert(id));
            assert forall|i: int, j: int|
                0 <= i < self.order@.len() && 0 <= j < self.order@.len() && i != j implies
                self.order@[i] != self.order@[j] by {
                if i < before.len() && j < before.len() {
                } else if i == before.len() {
                    assert(before.contains(before[j]));
                } else {
                    assert(before.contains(before[i]));
                }
            }
        }
        true
    }

    /// Number of ids currently tracked.
    pub fn len(&self) -> (r: usize)
        ensures
            r == self.ids().len(),
    {
        self.order.len()
    }

    /// Whether no ids are tracked.
    pub fn is_empty(&self) -> (r: bool)
        ensures
            r == (self.ids().len() == 0),
    {
        self.order.len() == 0
    }

    fn prune(&mut self)
        requires
            old(self).wf(),
        ensures
            final(self).wf(),
            final(self).max_size == old(self).max_size,
            final(self).prune_percent == old(self).prune_percent,
            final(self).order@ == pruned(
                old(self).order@,
                old(self).max_size as nat,
                old(self).prune_percent as nat,
            ),
    {
        if self.order.len() <= self.max_size {
            return;
        }
        if self.prune_percent == 100 {
            self.seen.clear();
            self.order.clear();
            assert(self.order@.to_set() =~= Set::<u64>::empty());
            return;
        }
        let m = self.max_size as u128;
        let p = self.prune_percent as u128;
        assert(m * p <= m * 100 && m * 100 < 0x1_0000_0000_0000_0000_0000) by (nonlinear_arith)
            requires
                p <= 100,
                m < 0x1_0000_0000_0000_0000,
        ;
        let q = m * p / 100;
        assert(q <= m) by (nonlinear_arith)
            requires
                q == m * p / 100,
                m * p <= m * 100,
        ;
        let to_prune = q as usize;
        assert(to_prune as nat == (self.max_size as nat) * (self.prune_percent as nat) / 100);
        let ghost start = self.order@;
        let mut n: usize = 0;
        while n < to_prune && self.order.len() > 0
            invariant
                self.wf(),
                n <= to_prune,
                self.max_size == old(self).max_size,
                self.prune_percent == old(self).prune_percent,
                start == old(self).order@,
                n <= start.len() ==> self.order@ == start.skip(n as int),
                n > start.len() ==> self.order@.len() == 0,
                self.order@.len() == 0 ==> n >= start.len(),
            decreases to_prune - n,
        {
            let ghost before = self.order@;
            match self.order.pop_front() {
                Some(old_id) => {
                    self.seen.remove(&old_id);
                    proof {
                        assert(before =~= seq![old_id] + self.order@);
                        assert(self.order@.to_set() =~= before.to_set().remove(old_id)) by {
                            assert forall|x: u64| self.order@.to_set().contains(x) implies x
                                != old_id by {
                                let k = choose|k: int| 0 <= k < self.order@.len() && self.order@[k]
                                    == x;
                                assert(before[k + 1] == x);
                                assert(before[0] == old_id);
                            }
                        }
                        assert(start.skip(n + 1) =~= self.order@);
                    }
                },
                None => {},
            }
            n = n + 1;
        }
        proof {
            if to_prune >= start.len() {
                assert(self.order@ =~= Seq::<u64>::empty());
            } else {
                assert(self.order@ == start.skip(to_prune as int));
            }
        }
    }
}

impl Default for Nonce {
    /// 1,000,000 ids at most, pruned 10% at a time.
    fn default() -> (r: Nonce)
        ensures
            r.wf(),
            r.ids() == Seq::<u64>::empty(),
            r.limit() == 1_000_000,
            r.percent() == 10,
    {
        Nonce::new(1_000_000, 10)
    }
}

/// A replay is rejected: an id that was just accepted is refused on the very
/// next registration, unless that registration prunes the whole record (a
/// prune share of 100% over a full record).
pub proof fn lemma_replay_rejected(order: Seq<u64>, max_size: nat, percent: nat, id: u64)
    requires
        percent <= 100,
        accept_step(order, max_size, percent, id).0,
        !(percent == 100 && accept_step(order, max_size, percent, id).1.len() > max_size),
    ensures
        !accept_step(accept_step(order, max_size, percent, id).1, max_size, percent, id).0,
{
    let s1 = accept_step(order, max_size, percent, id).1;
    assert(s1[s1.len() - 1] == id);
    let p = pruned(s1, max_size, percent);
    if s1.len() > max_size {
        let k = max_size * percent / 100;
        assert(k <= max_size) by (nonlinear_arith)
            requires
                percent <= 100,
                k == max_size * percent / 100,
        ;
        assert(p[p.len() - 1] == id);
    } else {
        assert(p[p.len() - 1] == id);
    }
}

} // verus!
