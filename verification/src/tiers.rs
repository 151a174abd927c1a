//! The tier table: thresholds in ascending order, each with the output that
//! applies from that threshold on.

use vstd::prelude::*;
use std::collections::BTreeMap;
use vstd::std_specs::btree::{
    axiom_increasing_seq_meaning,
    group_btree_axioms,
    increasing_seq,
    key_obeys_cmp_spec,
    spec_btree_map_iter,
};
use vstd::std_specs::cmp::OrdSpec;
use vstd::std_specs::iter::IteratorSpec;

verus! {

/// Whether `t` is the greatest threshold of `tiers` that `metric` reaches.
/// A metric equal to a threshold reaches it.
pub open spec fn is_greatest_met<C>(tiers: Map<u64, C>, metric: nat, t: u64) -> bool {
    &&& tiers.contains_key(t)
    &&& t <= metric
    &&& forall|u: u64| tiers.contains_key(u) && u <= metric ==> u <= t
}

/// The output for `metric`: that of the greatest threshold that `metric`
/// reaches, and `base` where it reaches none.
pub open spec fn selected<C>(base: C, tiers: Map<u64, C>, metric: nat) -> C {
    if exists|t: u64| is_greatest_met(tiers, metric, t) {
        tiers[choose|t: u64| is_greatest_met(tiers, metric, t)]
    } else {
        base
    }
}

/// Thresholds with their outputs, and the output that applies below all of
/// them.
pub struct TierTable<C> {
    /// The output where no threshold is reached.
    pub base_output: C,
    /// The output from each threshold on.
    pub tiers: BTreeMap<u64, C>,
}

/// Integers as keys are ordered as the map expects of its keys.
proof fn lemma_integer_keys()
    ensures
        vstd::laws_cmp::obeys_cmp::<u64>(),
        key_obeys_cmp_spec::<u64>(),
{
    broadcast use vstd::laws_cmp::group_laws_cmp;
    broadcast use group_btree_axioms;

}

/// An increasing sequence of integers ascends strictly.
proof fn lemma_ascending(s: Seq<u64>)
    requires
        increasing_seq(s),
    ensures
        forall|i: int, j: int| 0 <= i < j < s.len() ==> s[i] < s[j],
{
    lemma_integer_keys();
    axiom_increasing_seq_meaning::<u64>(s);
    assert forall|i: int, j: int| 0 <= i < j < s.len() implies s[i] < s[j] by {
        assert(s[i].cmp_spec(&s[j]) is Less);
    }
}

impl<C> TierTable<C> {
    /// The output that the table gives for `metric`.
    pub open spec fn choice(&self, metric: nat) -> C {
        selected(self.base_output, self.tiers@, metric)
    }

    /// A table without thresholds: it gives `base_output` for every metric.
    pub fn new(base_output: C) -> (table: TierTable<C>)
        ensures
            table.base_output == base_output,
            table.tiers@ == Map::<u64, C>::empty(),
    {
        TierTable { base_output, tiers: BTreeMap::new() }
    }

    /// A table with one threshold: `high` from `threshold` on, `low` below it.
    pub fn binary(low: C, threshold: u64, high: C) -> (table: TierTable<C>)
        ensures
            table.base_output == low,
            table.tiers@ == Map::<u64, C>::empty().insert(threshold, high),
    {
        let mut table = TierTable::new(low);
        table.insert(threshold, high);
        table
    }

    /// Sets the output from `threshold` on, and returns the one that it had,
    /// if any.
    pub fn insert(&mut self, threshold: u64, output: C) -> (previous: Option<C>)
        ensures
            final(self).base_output == old(self).base_output,
            final(self).tiers@ == old(self).tiers@.insert(threshold, output),
            match previous {
                Some(p) => old(self).tiers@.contains_key(threshold) && p == old(self).tiers@[threshold],
                None => !old(self).tiers@.contains_key(threshold),
            },
    {
        proof {
            lemma_integer_keys();
        }
        self.tiers.insert(threshold, output)
    }

    /// Looks `metric` up: the output of the greatest threshold that it
    /// reaches, or the base output where it reaches none.
    pub fn select(&self, metric: u128) -> (out: &C)
        ensures
            *out == self.choice(metric as nat),
    {
        proof {
            lemma_integer_keys();
        }
        let mut out = &self.base_output;
        let iter = self.tiers.iter();
        let ghost s = iter.remaining();
        let ghost keys = s.map_values(|kv: (&u64, &C)| *kv.0);
        proof {
            lemma_ascending(keys);
        }
        let ghost mut best: int = -1;
        let ghost mut seen: int = 0;
        for kv in it: iter
            invariant
                it.seq() == s,
                seen == it.index(),
                -1 <= best < seen,
                best == -1 ==> *out == self.base_output,
                best >= 0 ==> *out == *s[best].1 && *s[best].0 <= metric,
                forall|j: int| 0 <= j < seen && *(#[trigger] s[j]).0 <= metric ==> j <= best,
        {
            if *kv.0 as u128 <= metric {
                out = kv.1;
                proof {
                    best = seen;
                }
            }
            proof {
                seen = seen + 1;
            }
        }
        proof {
            broadcast use group_btree_axioms;

            let tiers = self.tiers@;
            if best >= 0 {
                // Every threshold comes up in the walk, and the walk ascends:
                // one that the metric reaches lies at or before `best`.
                let top = *s[best].0;
                assert forall|u: u64| tiers.contains_key(u) && u <= metric implies u <= top by {
                    let i = choose|i: int| 0 <= i < s.len() && s[i] == (&u, &tiers[u]);
                    assert(keys[i] <= keys[best]);
                }
                assert(is_greatest_met(tiers, metric as nat, top));
            }
        }
        out
    }
}

} // verus!
