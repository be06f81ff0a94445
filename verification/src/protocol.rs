//! The vocabulary shared by the programs that drive a lock themselves: what a
//! state machine asks its driver to do next, and what the driver observed.
use vstd::prelude::*;

verus! {

/// The next thing the driver of a lock-holding program has to do.
#[derive(Debug, PartialEq, Eq)]
pub enum LockAction<L, R> {
    /// Start a deadline that many seconds from now.
    ArmDeadline { seconds: u64 },
    /// Look whether the awaited file exists, and whether the armed deadline
    /// has passed; answer with `LockEvent::Checked`.
    CheckFile,
    /// Sleep that many milliseconds; answer with `LockEvent::Done`.
    Sleep { millis: u64 },
    /// Try once, without waiting, to take the lock; answer with
    /// `LockEvent::Acquired`.
    TryAcquire,
    /// Print the line on standard output (and flush it, if asked); answer
    /// with `LockEvent::Done`.
    Print { line: L, flush: bool },
    /// Release the lock that was taken; answer with `LockEvent::Done`.
    Release,
    /// Stop with this failure.
    Fail(R),
    /// Stop successfully.
    Exit,
}

/// What the driver observed after carrying out a `LockAction`.
#[derive(Clone, Copy, Debug, PartialEq, Eq)]
pub enum LockEvent {
    Done,
    Checked { present: bool, expired: bool },
    Acquired(bool),
}


/// How many of `acts` satisfy `pick`.
pub open spec fn occurrences<A>(acts: Seq<A>, pick: spec_fn(A) -> bool) -> nat
    decreases acts.len(),
{
    if acts.len() == 0 {
        0
    } else {
        (if pick(acts[0]) {
            1nat
        } else {
            0nat
        }) + occurrences(acts.drop_first(), pick)
    }
}

pub proof fn lemma_occurrences_cons<A>(a: A, rest: Seq<A>, pick: spec_fn(A) -> bool)
    ensures
        occurrences(seq![a] + rest, pick) == (if pick(a) {
            1nat
        } else {
            0nat
        }) + occurrences(rest, pick),
{
    assert((seq![a] + rest).drop_first() =~= rest);
    assert((seq![a] + rest)[0] == a);
}

} // verus!
