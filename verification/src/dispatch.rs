//! Dispatch ordering: the batch of (action, pressed) pairs produced in one
//! sampling tick is reordered, stably, so that every release precedes every
//! press before the batch is handed to the injection backend. Releasing
//! modifiers first prevents stuck-modifier artifacts when several logical
//! inputs change in the same tick.

use vstd::prelude::*;
use crate::actions::Action;

verus! {

/// The press events of a batch, in their original order.
pub open spec fn presses_of(q: Seq<(Action, bool)>) -> Seq<(Action, bool)> {
    q.filter(|e: (Action, bool)| e.1)
}

/// The release events of a batch, in their original order.
pub open spec fn releases_of(q: Seq<(Action, bool)>) -> Seq<(Action, bool)> {
    q.filter(|e: (Action, bool)| !e.1)
}

/// A batch in dispatch order: all releases first, then all presses, each in
/// their original relative order.
pub open spec fn sorted_batch(q: Seq<(Action, bool)>) -> Seq<(Action, bool)> {
    releases_of(q) + presses_of(q)
}

/// Reorders one tick's batch for dispatch: all releases before all presses,
/// stably, keeping exactly the original events.
pub fn sort_batch(queue: Vec<(Action, bool)>) -> (r: Vec<(Action, bool)>)
    ensures
        r@ == sorted_batch(queue@),
{
    let ghost orig = queue@;
    let mut rest = queue;
    let mut releases: Vec<(Action, bool)> = Vec::new();
    let mut presses: Vec<(Action, bool)> = Vec::new();
    let ghost mut k: int = 0;
    while rest.len() > 0
        invariant
            0 <= k <= orig.len(),
            rest@ == orig.subrange(k, orig.len() as int),
            releases@ == releases_of(orig.subrange(0, k)),
            presses@ == presses_of(orig.subrange(0, k)),
        decreases rest.len(),
    {
        let e = rest.remove(0);
        proof {
            assert(e == orig[k]);
            assert(rest@ =~= orig.subrange(k + 1, orig.len() as int));
            let prefix = orig.subrange(0, k);
            let step = orig.subrange(0, k + 1);
            assert(step =~= prefix + seq![orig[k]]);
            Seq::filter_distributes_over_add(prefix, seq![orig[k]], |t: (Action, bool)| t.1);
            Seq::filter_distributes_over_add(prefix, seq![orig[k]], |t: (Action, bool)| !t.1);
            reveal_with_fuel(Seq::filter, 3);
            assert(seq![orig[k]].drop_last() =~= Seq::<(Action, bool)>::empty());
        }
        if e.1 {
            presses.push(e);
        } else {
            releases.push(e);
        }
        proof {
            k = k + 1;
            assert(releases@ =~= releases_of(orig.subrange(0, k)));
            assert(presses@ =~= presses_of(orig.subrange(0, k)));
        }
    }
    proof {
        assert(orig.subrange(0, orig.len() as int) =~= orig);
    }
    let mut r = releases;
    let mut presses = presses;
    r.append(&mut presses);
    r
}

/// Dispatch order law: in a sorted batch, once a press appears, everything
/// after it is a press too — every release is injected strictly before every
/// press of the same batch.
pub proof fn lemma_releases_before_presses(q: Seq<(Action, bool)>, i: int, j: int)
    requires
        0 <= i < j < sorted_batch(q).len(),
        sorted_batch(q)[i].1,
    ensures
        sorted_batch(q)[j].1,
{
    let rel = releases_of(q);
    if i < rel.len() {
        q.lemma_filter_pred(|e: (Action, bool)| !e.1, i);
        assert(false);
    }
    if j >= rel.len() {
        q.lemma_filter_pred(|e: (Action, bool)| e.1, j - rel.len());
    }
}

} // verus!
