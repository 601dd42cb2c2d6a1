//! One cleaner tick: remove exited containers whose finish time lies further
//! in the past than the retention age.
//!
//! The surrounding loop lists exited containers, inspects each for its finish
//! time, asks this module which qualify, and issues the removals. A record
//! whose name or finish time is missing or unreadable is silently skipped:
//! it simply does not qualify this tick.

use crate::engine::InspectBrief;
use crate::text::{spec_strip_leading_slash, strip_leading_slash};
use crate::timestamp::{parse_rfc3339_epoch, spec_parse_rfc3339};
use vstd::prelude::*;

verus! {

/// The finish times at or after this threshold are young enough to keep:
/// the tick's current time minus the retention age. Absent only when the
/// subtraction leaves the representable range.
pub fn cleaning_threshold(now_secs: i64, max_age: u32) -> (r: Option<i64>)
    ensures
        r is Some <==> now_secs - max_age >= i64::MIN,
        r matches Some(t) ==> t == now_secs - max_age,
{
    if now_secs >= i64::MIN + max_age as i64 {
        Some(now_secs - max_age as i64)
    } else {
        None
    }
}

/// An inspected container qualifies for removal when it has a name and its
/// finish time reads as a timestamp strictly before the threshold. The
/// strict comparison keeps a container that finished exactly at the
/// threshold.
pub open spec fn spec_removable(c: InspectBrief, threshold: i64) -> bool {
    &&& c.name is Some
    &&& c.finished_at matches Option::Some(fa) && (spec_parse_rfc3339(fa@) matches Option::Some(t)
        && t < threshold)
}

/// The names to remove: each qualifying record's name, stripped of the
/// engine's leading `/`, in listing order.
pub open spec fn spec_removals(v: Seq<InspectBrief>, threshold: i64) -> Seq<Seq<char>>
    decreases v.len(),
{
    if v.len() == 0 {
        Seq::empty()
    } else {
        let rest = spec_removals(v.drop_first(), threshold);
        if spec_removable(v.first(), threshold) {
            seq![spec_strip_leading_slash(v.first().name->0@)] + rest
        } else {
            rest
        }
    }
}

/// Appending a record extends the removal list by that record's name exactly
/// when it qualifies.
proof fn lemma_removals_snoc(v: Seq<InspectBrief>, c: InspectBrief, threshold: i64)
    ensures
        spec_removals(v.push(c), threshold) == spec_removals(v, threshold) + (if spec_removable(
            c,
            threshold,
        ) {
            seq![spec_strip_leading_slash(c.name->0@)]
        } else {
            Seq::<Seq<char>>::empty()
        }),
    decreases v.len(),
{
    let tail = if spec_removable(c, threshold) {
        seq![spec_strip_leading_slash(c.name->0@)]
    } else {
        Seq::<Seq<char>>::empty()
    };
    if v.len() == 0 {
        reveal_with_fuel(spec_removals, 2);
        assert(v.push(c).first() == c);
        assert(v.push(c).drop_first() =~= Seq::<InspectBrief>::empty());
        assert(spec_removals(v.push(c), threshold) =~= spec_removals(v, threshold) + tail);
    } else {
        assert(v.push(c).first() == v.first());
        assert(v.push(c).drop_first() =~= v.drop_first().push(c));
        lemma_removals_snoc(v.drop_first(), c, threshold);
        assert(spec_removals(v.push(c).drop_first(), threshold) == spec_removals(
            v.drop_first(),
            threshold,
        ) + tail);
        if spec_removable(v.first(), threshold) {
            let h = spec_strip_leading_slash(v.first().name->0@);
            assert(spec_removals(v.push(c), threshold) == seq![h] + (spec_removals(
                v.drop_first(),
                threshold,
            ) + tail));
            assert(spec_removals(v, threshold) == seq![h] + spec_removals(v.drop_first(), threshold));
            assert(seq![h] + (spec_removals(v.drop_first(), threshold) + tail) =~= (seq![h]
                + spec_removals(v.drop_first(), threshold)) + tail);
        }
        assert(spec_removals(v.push(c), threshold) =~= spec_removals(v, threshold) + tail);
    }
}

/// Whether one inspected record qualifies for removal at the threshold.
fn removable(c: &InspectBrief, threshold: i64) -> (r: bool)
    ensures
        r == spec_removable(*c, threshold),
{
    if c.name.is_none() {
        return false;
    }
    match &c.finished_at {
        Option::Some(fa) => {
            match parse_rfc3339_epoch(fa.as_str()) {
                Option::Some(t) => t < threshold,
                Option::None => false,
            }
        },
        Option::None => false,
    }
}

/// Decide which inspected containers this tick removes: exactly those whose
/// finish time reads as a timestamp strictly before the threshold, each
/// addressed by its name.
pub fn removal_names(inspected: &Vec<InspectBrief>, threshold: i64) -> (names: Vec<String>)
    ensures
        names.deep_view() == spec_removals(inspected@, threshold),
{
    let mut names: Vec<String> = Vec::new();
    let mut i: usize = 0;
    while i < inspected.len()
        invariant
            i <= inspected@.len(),
            names.deep_view() == spec_removals(inspected@.take(i as int), threshold),
        decreases inspected@.len() - i,
    {
        let ghost prev = names.deep_view();
        if removable(&inspected[i], threshold) {
            let name = match &inspected[i].name {
                Option::Some(n) => strip_leading_slash(n.as_str()),
                Option::None => {
                    proof {
                        assert(false);
                    }
                    String::new()
                },
            };
            let ghost nv = name@;
            names.push(name);
            proof {
                assert(names.deep_view() =~= prev + seq![nv]);
            }
        }
        proof {
            assert(inspected@.take(i as int + 1).drop_last() =~= inspected@.take(i as int));
            assert(inspected@.take(i as int + 1) =~= inspected@.take(i as int).push(
                inspected@[i as int],
            ));
            lemma_removals_snoc(inspected@.take(i as int), inspected@[i as int], threshold);
            assert(names.deep_view() =~= spec_removals(inspected@.take(i as int + 1), threshold));
        }
        i = i + 1;
    }
    proof {
        assert(inspected@.take(inspected@.len() as int) =~= inspected@);
    }
    names
}

} // verus!
