//! The failure budget shared by the background loops: a consecutive-error
//! count, reset on success, that turns fatal on the fifth failure in a row.

use vstd::prelude::*;

verus! {

/// How many consecutive tick failures a background loop tolerates before it
/// terminates with an error.
pub const MAX_CONSECUTIVE_ERRORS: u8 = 5;

/// The number of consecutive failures at the end of a history of tick
/// outcomes (`true` = the tick succeeded).
pub open spec fn consecutive_failures(outcomes: Seq<bool>) -> int
    decreases outcomes.len(),
{
    if outcomes.len() == 0 {
        0
    } else if outcomes.last() {
        0
    } else {
        consecutive_failures(outcomes.drop_last()) + 1
    }
}

/// Whether a loop that saw this history of outcomes is still running: no
/// prefix ever reached the failure cap.
pub open spec fn loop_survives(outcomes: Seq<bool>) -> bool {
    forall|i: int|
        0 <= i <= outcomes.len() ==> consecutive_failures(#[trigger] outcomes.take(i))
            < MAX_CONSECUTIVE_ERRORS as int
}

/// The consecutive-failure counter a background loop carries across ticks.
///
/// `history` records the outcome of every tick seen so far; the invariant
/// ties the stored count to that history.
pub struct TickCounter {
    errors: u8,
    history: Ghost<Seq<bool>>,
}

impl TickCounter {
    /// The outcomes recorded so far.
    pub closed spec fn history(self) -> Seq<bool> {
        self.history@
    }

    /// The stored count equals the trailing failure run of the history, and
    /// the loop has not yet exhausted its budget.
    pub closed spec fn inv(self) -> bool {
        &&& self.errors as int == consecutive_failures(self.history@)
        &&& loop_survives(self.history@)
    }

    /// A fresh counter for a loop that has not ticked yet.
    pub fn new() -> (c: TickCounter)
        ensures
            c.inv(),
            c.history() == Seq::<bool>::empty(),
    {
        let c = TickCounter { errors: 0, history: Ghost(Seq::empty()) };
        proof {
            assert forall|i: int| 0 <= i <= c.history@.len() implies consecutive_failures(
                #[trigger] c.history@.take(i),
            ) < MAX_CONSECUTIVE_ERRORS as int by {
                assert(c.history@.take(i) =~= Seq::<bool>::empty());
            }
        }
        c
    }

    /// Record one tick's outcome. Returns whether the loop must terminate
    /// with an error: true exactly when this failure is the fifth in a row.
    pub fn record(&mut self, ok: bool) -> (fatal: bool)
        requires
            old(self).inv(),
        ensures
            fatal == !loop_survives(old(self).history().push(ok)),
            !fatal ==> final(self).inv() && final(self).history() == old(self).history().push(ok),
    {
        proof {
            let h = self.history@;
            let h2 = h.push(ok);
            assert(h2.drop_last() =~= h);
            assert forall|i: int| 0 <= i < h2.len() implies consecutive_failures(
                #[trigger] h2.take(i),
            ) < MAX_CONSECUTIVE_ERRORS as int by {
                assert(h2.take(i) =~= h.take(i));
            }
            assert(h2.take(h2.len() as int) =~= h2);
        }
        self.history = Ghost(self.history@.push(ok));
        if ok {
            self.errors = 0;
            false
        } else {
            self.errors = self.errors + 1;
            if self.errors >= MAX_CONSECUTIVE_ERRORS {
                self.errors = 0;
                true
            } else {
                false
            }
        }
    }
}

/// A sequence of `n` failed ticks.
pub open spec fn failures(n: nat) -> Seq<bool> {
    Seq::new(n, |i: int| false)
}

/// Appending failures extends the trailing failure run one for one.
pub proof fn lemma_failures_accumulate(outcomes: Seq<bool>, n: nat)
    ensures
        consecutive_failures(outcomes + failures(n)) == consecutive_failures(outcomes) + n,
    decreases n,
{
    if n == 0 {
        assert(outcomes + failures(0) =~= outcomes);
    } else {
        let whole = outcomes + failures(n);
        assert(!whole.last());
        assert(whole.drop_last() =~= outcomes + failures((n - 1) as nat));
        lemma_failures_accumulate(outcomes, (n - 1) as nat);
    }
}

/// A surviving loop whose last tick succeeded (or which has not ticked yet)
/// survives four further consecutive failures, and terminates on the fifth:
/// five consecutive failures, and only five, are fatal.
pub proof fn lemma_five_consecutive_failures_fatal(outcomes: Seq<bool>)
    requires
        loop_survives(outcomes),
        consecutive_failures(outcomes) == 0,
    ensures
        loop_survives(outcomes + failures(4)),
        !loop_survives(outcomes + failures(5)),
{
    let four = outcomes + failures(4);
    assert forall|i: int| 0 <= i <= four.len() implies consecutive_failures(#[trigger] four.take(i))
        < MAX_CONSECUTIVE_ERRORS as int by {
        if i <= outcomes.len() {
            assert(four.take(i) =~= outcomes.take(i));
        } else {
            let k = (i - outcomes.len()) as nat;
            assert(four.take(i) =~= outcomes + failures(k));
            lemma_failures_accumulate(outcomes, k);
        }
    }
    let five = outcomes + failures(5);
    lemma_failures_accumulate(outcomes, 5);
    assert(five.take(five.len() as int) =~= five);
    assert(!loop_survives(five));
}

/// A successful tick resets the consecutive-error count to zero, and can
/// never itself end the loop.
pub proof fn lemma_success_resets(outcomes: Seq<bool>)
    requires
        loop_survives(outcomes),
    ensures
        consecutive_failures(outcomes.push(true)) == 0,
        loop_survives(outcomes.push(true)),
{
    let h2 = outcomes.push(true);
    assert forall|i: int| 0 <= i <= h2.len() implies consecutive_failures(#[trigger] h2.take(i))
        < MAX_CONSECUTIVE_ERRORS as int by {
        if i <= outcomes.len() {
            assert(h2.take(i) =~= outcomes.take(i));
        } else {
            assert(h2.take(i) =~= h2);
        }
    }
}

} // verus!
