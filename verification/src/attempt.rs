//! One contending process of the contention-wave canary.
//!
//! It waits (at most `BARRIER_TIMEOUT_SECS`) for the coordinator's start
//! barrier, tries the lock exactly once without waiting, prints `WIN` or
//! `CONTENDED`, and, when it won, holds the lock for `HOLD_MILLIS` before
//! releasing it.
use vstd::prelude::*;
use crate::protocol::LockAction;
use crate::protocol::LockEvent;
use crate::protocol::occurrences;
use crate::protocol::lemma_occurrences_cons;
use crate::process_canary::Line;
use crate::process_canary::Reason;

verus! {

pub const BARRIER_TIMEOUT_SECS: u64 = 15;

pub const BARRIER_POLL_MILLIS: u64 = 2;

pub const HOLD_MILLIS: u64 = 2000;

pub type ContenderAction = LockAction<Line, Reason>;

/// Where a contender is, between two actions.
#[derive(Clone, Copy, Debug, PartialEq, Eq)]
pub enum Contender {
    /// The barrier deadline is being armed.
    Arming,
    /// Looking for the barrier file.
    Watching,
    /// Sleeping between two looks at the barrier.
    Pausing,
    /// The one try for the lock is under way.
    Acquiring,
    /// The verdict line is being printed.
    Announcing { won: bool },
    /// Holding the won lock.
    Holding,
    /// The won lock is being released.
    Releasing,
    /// Nothing more to do.
    Finished,
}

impl Contender {
    /// Whether `e` answers the action that the contender is waiting on.
    pub open spec fn awaits(self, e: LockEvent) -> bool {
        match self {
            Contender::Watching => e is Checked,
            Contender::Acquiring => e is Acquired,
            Contender::Finished => false,
            _ => e is Done,
        }
    }

    /// The contender's next state and action after `e`.
    pub open spec fn transition(self, e: LockEvent) -> (Contender, ContenderAction) {
        match self {
            Contender::Arming => (Contender::Watching, LockAction::CheckFile),
            Contender::Watching => match e {
                LockEvent::Checked { present, expired } => if present {
                    (Contender::Acquiring, LockAction::TryAcquire)
                } else if expired {
                    (Contender::Finished, LockAction::Fail(Reason::BarrierTimeout))
                } else {
                    (Contender::Pausing, LockAction::Sleep { millis: BARRIER_POLL_MILLIS })
                },
                _ => (self, LockAction::Exit),
            },
            Contender::Pausing => (Contender::Watching, LockAction::CheckFile),
            Contender::Acquiring => match e {
                LockEvent::Acquired(won) => (
                    Contender::Announcing { won },
                    LockAction::Print {
                        line: if won {
                            Line::Win
                        } else {
                            Line::Contended
                        },
                        flush: false,
                    },
                ),
                _ => (self, LockAction::Exit),
            },
            Contender::Announcing { won } => if won {
                (Contender::Holding, LockAction::Sleep { millis: HOLD_MILLIS })
            } else {
                (Contender::Finished, LockAction::Exit)
            },
            Contender::Holding => (Contender::Releasing, LockAction::Release),
            Contender::Releasing => (Contender::Finished, LockAction::Exit),
            Contender::Finished => (self, LockAction::Exit),
        }
    }

    /// The first state and action of a contender.
    pub fn start() -> (r: (Contender, ContenderAction))
        ensures
            r == (Contender::Arming, LockAction::ArmDeadline::<Line, Reason> {
                seconds: BARRIER_TIMEOUT_SECS,
            }),
    {
        (Contender::Arming, LockAction::ArmDeadline { seconds: BARRIER_TIMEOUT_SECS })
    }

    /// Whether `e` answers the action that the contender is waiting on.
    pub fn accepts(&self, e: &LockEvent) -> (b: bool)
        ensures
            b == self.awaits(*e),
    {
        match self {
            Contender::Watching => matches!(e, LockEvent::Checked { .. }),
            Contender::Acquiring => matches!(e, LockEvent::Acquired(_)),
            Contender::Finished => false,
            _ => matches!(e, LockEvent::Done),
        }
    }

    /// Takes the answer to the last action and decides the next one.
    pub fn step(self, e: LockEvent) -> (r: (Contender, ContenderAction))
        requires
            self.awaits(e),
        ensures
            r == self.transition(e),
    {
        match self {
            Contender::Arming => (Contender::Watching, LockAction::CheckFile),
            Contender::Watching => match e {
                LockEvent::Checked { present, expired } => if present {
                    (Contender::Acquiring, LockAction::TryAcquire)
                } else if expired {
                    (Contender::Finished, LockAction::Fail(Reason::BarrierTimeout))
                } else {
                    (Contender::Pausing, LockAction::Sleep { millis: BARRIER_POLL_MILLIS })
                },
                _ => (self, LockAction::Exit),
            },
            Contender::Pausing => (Contender::Watching, LockAction::CheckFile),
            Contender::Acquiring => match e {
                LockEvent::Acquired(won) => {
                    let line = if won {
                        Line::Win
                    } else {
                        Line::Contended
                    };
                    (Contender::Announcing { won }, LockAction::Print { line, flush: false })
                },
                _ => (self, LockAction::Exit),
            },
            Contender::Announcing { won } => if won {
                (Contender::Holding, LockAction::Sleep { millis: HOLD_MILLIS })
            } else {
                (Contender::Finished, LockAction::Exit)
            },
            Contender::Holding => (Contender::Releasing, LockAction::Release),
            Contender::Releasing => (Contender::Finished, LockAction::Exit),
            Contender::Finished => (self, LockAction::Exit),
        }
    }

    /// The actions that the contender takes from this state when its driver
    /// answers with `evs`, up to the first answer that it does not await.
    pub open spec fn run(self, evs: Seq<LockEvent>) -> Seq<ContenderAction>
        decreases evs.len(),
    {
        if evs.len() == 0 || !self.awaits(evs[0]) {
            seq![]
        } else {
            let (next, a) = self.transition(evs[0]);
            seq![a] + next.run(evs.drop_first())
        }
    }
}


/// The actions that a contender driven by `evs` takes, after the first.
pub open spec fn contender_run(evs: Seq<LockEvent>) -> Seq<ContenderAction> {
    Contender::Arming.run(evs)
}

impl Contender {
    spec fn before_try(self) -> bool {
        self is Arming || self is Watching || self is Pausing
    }

    spec fn before_verdict(self) -> bool {
        self.before_try() || self is Acquiring
    }

    spec fn may_release(self) -> bool {
        self.before_verdict() || self == (Contender::Announcing { won: true }) || self is Holding
    }

    spec fn holds_lock(self) -> bool {
        self == (Contender::Announcing { won: true }) || self is Holding
    }
}

proof fn lemma_contender_budget(s: Contender, evs: Seq<LockEvent>)
    ensures
        occurrences(s.run(evs), |a: ContenderAction| a is TryAcquire) <= (if s.before_try() {
            1nat
        } else {
            0nat
        }),
        occurrences(s.run(evs), |a: ContenderAction| a is Print) <= (if s.before_verdict() {
            1nat
        } else {
            0nat
        }),
        occurrences(s.run(evs), |a: ContenderAction| a is Release) <= (if s.may_release() {
            1nat
        } else {
            0nat
        }),
    decreases evs.len(),
{
    if evs.len() == 0 || !s.awaits(evs[0]) {
    } else {
        let (next, a) = s.transition(evs[0]);
        lemma_contender_budget(next, evs.drop_first());
        lemma_occurrences_cons(a, next.run(evs.drop_first()), |a: ContenderAction| a is TryAcquire);
        lemma_occurrences_cons(a, next.run(evs.drop_first()), |a: ContenderAction| a is Print);
        lemma_occurrences_cons(a, next.run(evs.drop_first()), |a: ContenderAction| a is Release);
    }
}

proof fn lemma_contender_release_needs_win(s: Contender, evs: Seq<LockEvent>)
    requires
        occurrences(s.run(evs), |a: ContenderAction| a is Release) > 0,
    ensures
        s.holds_lock() || exists|i: int| 0 <= i < evs.len() && evs[i] == LockEvent::Acquired(true),
    decreases evs.len(),
{
    if evs.len() == 0 || !s.awaits(evs[0]) {
        assert(s.run(evs) =~= seq![]);
    } else {
        let (next, a) = s.transition(evs[0]);
        let rest = evs.drop_first();
        lemma_occurrences_cons(a, next.run(rest), |a: ContenderAction| a is Release);
        if a is Release {
        } else {
            lemma_contender_release_needs_win(next, rest);
            if next.holds_lock() {
                if !s.holds_lock() {
                    assert(evs[0] == LockEvent::Acquired(true));
                }
            } else {
                let i = choose|i: int| 0 <= i < rest.len() && rest[i] == LockEvent::Acquired(true);
                assert(evs[i + 1] == rest[i]);
            }
        }
    }
}

proof fn lemma_contender_verdict_matches(s: Contender, evs: Seq<LockEvent>, k: int)
    requires
        0 <= k < s.run(evs).len(),
        s.run(evs)[k] is Print,
    ensures
        exists|i: int|
            #![trigger evs[i]]
            0 <= i <= k && i < evs.len() && evs[i] == LockEvent::Acquired(
                s.run(evs)[k]->line is Win,
            ),
    decreases evs.len(),
{
    if evs.len() == 0 || !s.awaits(evs[0]) {
    } else {
        let (next, a) = s.transition(evs[0]);
        let rest = evs.drop_first();
        if k == 0 {
            assert(evs[0] == LockEvent::Acquired(a->line is Win));
        } else {
            assert(s.run(evs)[k] == next.run(rest)[k - 1]);
            lemma_contender_verdict_matches(next, rest, k - 1);
            let i = choose|i: int|
                #![trigger rest[i]]
                0 <= i <= k - 1 && i < rest.len() && rest[i] == LockEvent::Acquired(
                    next.run(rest)[k - 1]->line is Win,
                );
            assert(evs[i + 1] == rest[i]);
        }
    }
}

/// A contender tries the lock at most once, prints at most one verdict and
/// releases at most once, whatever its driver answers.
pub proof fn lemma_contender_acts_once(evs: Seq<LockEvent>)
    ensures
        occurrences(contender_run(evs), |a: ContenderAction| a is TryAcquire) <= 1,
        occurrences(contender_run(evs), |a: ContenderAction| a is Print) <= 1,
        occurrences(contender_run(evs), |a: ContenderAction| a is Release) <= 1,
{
    lemma_contender_budget(Contender::Arming, evs);
}

/// A contender releases the lock only after its try took it.
pub proof fn lemma_contender_releases_only_a_won_lock(evs: Seq<LockEvent>)
    requires
        occurrences(contender_run(evs), |a: ContenderAction| a is Release) > 0,
    ensures
        exists|i: int| 0 <= i < evs.len() && evs[i] == LockEvent::Acquired(true),
{
    lemma_contender_release_needs_win(Contender::Arming, evs);
}

/// A contender prints `WIN` only after its try took the lock, and `CONTENDED`
/// only after its try found the lock taken.
pub proof fn lemma_contender_verdict_is_truthful(evs: Seq<LockEvent>, k: int)
    requires
        0 <= k < contender_run(evs).len(),
        contender_run(evs)[k] is Print,
    ensures
        contender_run(evs)[k]->line is Win ==> exists|i: int|
            0 <= i <= k && i < evs.len() && evs[i] == LockEvent::Acquired(true),
        !(contender_run(evs)[k]->line is Win) ==> exists|i: int|
            0 <= i <= k && i < evs.len() && evs[i] == LockEvent::Acquired(false),
{
    lemma_contender_verdict_matches(Contender::Arming, evs, k);
}


proof fn lemma_try_after_barrier_from(s: Contender, evs: Seq<LockEvent>, k: int)
    requires
        0 <= k < s.run(evs).len(),
        s.run(evs)[k] is TryAcquire,
    ensures
        exists|j: int|
            #![trigger evs[j]]
            0 <= j <= k && j < evs.len() && evs[j] is Checked && evs[j]->present,
    decreases evs.len(),
{
    let (next, a) = s.transition(evs[0]);
    let rest = evs.drop_first();
    assert(s.run(evs) == seq![a] + next.run(rest));
    if k == 0 {
        assert(evs[0] is Checked && evs[0]->present);
    } else {
        assert(s.run(evs)[k] == next.run(rest)[k - 1]);
        lemma_try_after_barrier_from(next, rest, k - 1);
        let j = choose|j: int|
            #![trigger rest[j]]
            0 <= j <= k - 1 && j < rest.len() && rest[j] is Checked && rest[j]->present;
        assert(evs[j + 1] == rest[j]);
    }
}

/// A contender tries the lock only after it saw the start barrier, and gives
/// up waiting only when the barrier was absent after its deadline had passed.
pub proof fn lemma_contender_waits_for_the_barrier(evs: Seq<LockEvent>, k: int)
    requires
        0 <= k < contender_run(evs).len(),
    ensures
        contender_run(evs)[k] is TryAcquire ==> exists|j: int|
            0 <= j <= k && j < evs.len() && evs[j] is Checked && evs[j]->present,
        contender_run(evs)[k] == LockAction::<Line, Reason>::Fail(Reason::BarrierTimeout)
            ==> k < evs.len() && (evs[k] == LockEvent::Checked { present: false, expired: true }),
{
    if contender_run(evs)[k] is TryAcquire {
        lemma_try_after_barrier_from(Contender::Arming, evs, k);
    }
    if contender_run(evs)[k] == LockAction::<Line, Reason>::Fail(Reason::BarrierTimeout) {
        lemma_timeout_from(Contender::Arming, evs, k);
    }
}

proof fn lemma_timeout_from(s: Contender, evs: Seq<LockEvent>, k: int)
    requires
        0 <= k < s.run(evs).len(),
        s.run(evs)[k] == LockAction::<Line, Reason>::Fail(Reason::BarrierTimeout),
    ensures
        k < evs.len(),
        (evs[k] == LockEvent::Checked { present: false, expired: true }),
    decreases evs.len(),
{
    let (next, a) = s.transition(evs[0]);
    let rest = evs.drop_first();
    assert(s.run(evs) == seq![a] + next.run(rest));
    if k > 0 {
        assert(s.run(evs)[k] == next.run(rest)[k - 1]);
        lemma_timeout_from(next, rest, k - 1);
        assert(evs[k] == rest[k - 1]);
    }
}

} // verus!
