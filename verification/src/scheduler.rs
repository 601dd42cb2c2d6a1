//! One scheduler tick: admit pending containers into running state, oldest
//! first, up to the concurrency quota.
//!
//! The surrounding loop counts active containers, lists pending ones (sorted
//! oldest to newest), asks this module which to start, issues the starts, and
//! feeds the tick's outcome to its failure budget.

use crate::engine::{
    lemma_names_of_snoc, sorted_by_created, spec_first_name, spec_names_of, ContainerBrief,
    first_name,
};
use vstd::prelude::*;

verus! {

/// The records one tick admits: the longest prefix of the pending listing
/// that fits in the quota room left (`room` may come out non-positive when
/// the quota is already met; nothing is admitted then).
pub open spec fn spec_admitted(pending: Seq<ContainerBrief>, room: int) -> Seq<ContainerBrief> {
    if room <= 0 {
        Seq::empty()
    } else if room <= pending.len() {
        pending.take(room)
    } else {
        pending
    }
}

/// The job names one tick starts: the names of the admitted records.
pub open spec fn spec_plan(pending: Seq<ContainerBrief>, room: int) -> Seq<Seq<char>> {
    spec_names_of(spec_admitted(pending, room))
}

/// Decide which pending containers this tick starts: with `active` containers
/// already running against a quota of `max_concurrent`, the first
/// `max_concurrent - active` pending records are admitted and addressed by
/// their job names.
pub fn schedule_plan(max_concurrent: usize, active: usize, pending: &Vec<ContainerBrief>) -> (names:
    Vec<String>)
    ensures
        names.deep_view() == spec_plan(pending@, max_concurrent - active),
{
    if active >= max_concurrent {
        let names: Vec<String> = Vec::new();
        proof {
            assert(names.deep_view() =~= spec_plan(pending@, max_concurrent - active));
        }
        return names;
    }
    let room = max_concurrent - active;
    let n = if room <= pending.len() {
        room
    } else {
        pending.len()
    };
    let mut names: Vec<String> = Vec::new();
    let mut i: usize = 0;
    while i < n
        invariant
            i <= n,
            n <= pending@.len(),
            names.deep_view() == spec_names_of(pending@.take(i as int)),
        decreases n - i,
    {
        let ghost prev = names.deep_view();
        match first_name(&pending[i]) {
            Some(name) => {
                let ghost nv = name@;
                names.push(name);
                proof {
                    assert(names.deep_view() =~= prev + seq![nv]);
                }
            },
            None => (),
        }
        proof {
            assert(pending@.take(i as int + 1).drop_last() =~= pending@.take(i as int));
            assert(pending@.take(i as int + 1) =~= pending@.take(i as int).push(
                pending@[i as int],
            ));
            lemma_names_of_snoc(pending@.take(i as int), pending@[i as int]);
            assert(names.deep_view() =~= spec_names_of(pending@.take(i as int + 1)));
        }
        i = i + 1;
    }
    proof {
        if room > pending@.len() {
            assert(pending@.take(pending@.len() as int) =~= pending@);
        }
        assert(pending@.take(n as int) =~= spec_admitted(pending@, room as int));
    }
    names
}

/// Every record with a usable name contributes exactly one name.
proof fn lemma_names_of_len(s: Seq<ContainerBrief>)
    requires
        forall|i: int| 0 <= i < s.len() ==> spec_first_name(#[trigger] s[i]) is Some,
    ensures
        spec_names_of(s).len() == s.len(),
    decreases s.len(),
{
    if s.len() > 0 {
        assert(spec_first_name(s[0]) is Some);
        lemma_names_of_len(s.drop_first());
    }
}

/// In a single tick the number of start attempts is exactly
/// `min(max_concurrent - active, |pending|)` when that is positive, else
/// zero — provided every pending record carries a name, as the engine's data
/// model has it.
pub proof fn lemma_admission_count(pending: Seq<ContainerBrief>, max_concurrent: int, active: int)
    requires
        forall|i: int| 0 <= i < pending.len() ==> spec_first_name(#[trigger] pending[i]) is Some,
    ensures
        spec_plan(pending, max_concurrent - active).len() == if max_concurrent - active <= 0 {
            0int
        } else if max_concurrent - active <= pending.len() {
            max_concurrent - active
        } else {
            pending.len() as int
        },
{
    let room = max_concurrent - active;
    let admitted = spec_admitted(pending, room);
    assert forall|i: int| 0 <= i < admitted.len() implies spec_first_name(
        #[trigger] admitted[i],
    ) is Some by {
        assert(admitted[i] == pending[i]);
    }
    lemma_names_of_len(admitted);
}

/// Within one tick, containers are admitted in non-decreasing creation
/// order: the admitted records of a listing sorted oldest to newest are
/// themselves sorted oldest to newest.
pub proof fn lemma_admission_order(pending: Seq<ContainerBrief>, room: int)
    requires
        sorted_by_created(pending),
    ensures
        sorted_by_created(spec_admitted(pending, room)),
{
    let admitted = spec_admitted(pending, room);
    assert forall|i: int, j: int| 0 <= i < j < admitted.len() implies crate::engine::created_le(
        #[trigger] admitted[i].created,
        #[trigger] admitted[j].created,
    ) by {
        assert(admitted[i] == pending[i] && admitted[j] == pending[j]);
    }
}

} // verus!
