//! The coordinating side of the contention-wave canary.
//!
//! Each of `ROUNDS` rounds prepares a fresh home, starts
//! `PROCESSES_PER_WAVE` contenders that all wait on one barrier, lets them go
//! at once, and collects what each printed. A round passes when exactly one
//! contender won and every other one found the lock taken, and when, after the
//! winner released, the rendezvous is gone while the caller-owned directories
//! and file are untouched. The first check that fails ends the run.
use vstd::prelude::*;
use vstd::string::StringExecFns;
use crate::process_canary::Line;
use crate::process_canary::Reason;
use crate::process_canary::PROCESSES_PER_WAVE;
use crate::process_canary::ROUNDS;
use crate::process_canary::sentinel_content;
use crate::process_canary::sentinel_intact;
use crate::text::trim;
use crate::text::trimmed;
use crate::protocol::occurrences;
use crate::protocol::lemma_occurrences_cons;

verus! {

/// How long the coordinator lets the contenders settle on the barrier before
/// it opens it.
pub const SETTLE_MILLIS: u64 = 300;

/// What a contender left behind when it exited.
#[derive(Debug, PartialEq, Eq)]
pub struct ChildReport {
    /// Whether it exited successfully.
    pub succeeded: bool,
    /// Its exit status, as text.
    pub status: String,
    /// Its standard error, as text.
    pub stderr: String,
    /// Its standard output decoded as UTF-8, or the decoder's account of why
    /// that failed.
    pub stdout: Result<String, String>,
}

/// How a contender's report reads.
#[derive(Clone, Copy, Debug, PartialEq, Eq)]
pub enum Outcome {
    /// It exited unsuccessfully.
    Crashed,
    /// Its output was not UTF-8.
    Unreadable,
    /// It printed `WIN`.
    Won,
    /// It printed `CONTENDED`.
    Lost,
    /// It printed something else.
    Unrecognized,
}

pub open spec fn outcome(r: ChildReport) -> Outcome {
    if !r.succeeded {
        Outcome::Crashed
    } else {
        match r.stdout {
            Err(_) => Outcome::Unreadable,
            Ok(out) => if trimmed(out@) == "WIN"@ {
                Outcome::Won
            } else if trimmed(out@) == "CONTENDED"@ {
                Outcome::Lost
            } else {
                Outcome::Unrecognized
            },
        }
    }
}

/// How a report is read: a contender won when it exited successfully and
/// printed `WIN`, and was contended when it exited successfully and printed
/// `CONTENDED`, white space around its output aside; it crashed when it exited
/// unsuccessfully, whatever it printed.
pub proof fn lemma_outcome_reading(r: ChildReport)
    ensures
        outcome(r) is Won <==> r.succeeded && r.stdout is Ok && trimmed(r.stdout->Ok_0@)
            == "WIN"@,
        outcome(r) is Lost <==> r.succeeded && r.stdout is Ok && trimmed(r.stdout->Ok_0@)
            == "CONTENDED"@,
        outcome(r) is Crashed <==> !r.succeeded,
        outcome(r) is Unreadable <==> r.succeeded && r.stdout is Err,
{
    reveal_strlit("WIN");
    reveal_strlit("CONTENDED");
    assert("WIN"@.len() != "CONTENDED"@.len());
}

/// Reads a contender's report; surrounding white space of its output does not
/// count.
pub fn classify(r: &ChildReport) -> (o: Outcome)
    ensures
        o == outcome(*r),
        o is Won <==> r.succeeded && r.stdout is Ok && trimmed(r.stdout->Ok_0@) == "WIN"@,
        o is Lost <==> r.succeeded && r.stdout is Ok && trimmed(r.stdout->Ok_0@) == "CONTENDED"@,
        o is Crashed <==> !r.succeeded,
{
    proof {
        lemma_outcome_reading(*r);
    }
    if !r.succeeded {
        return Outcome::Crashed;
    }
    match &r.stdout {
        Err(_) => Outcome::Unreadable,
        Ok(out) => {
            let t = trim(out.as_str());
            let win = String::from_str("WIN");
            let contended = String::from_str("CONTENDED");
            if t == win {
                Outcome::Won
            } else if t == contended {
                Outcome::Lost
            } else {
                Outcome::Unrecognized
            }
        },
    }
}

/// What the coordinator's driver observed after carrying out an action.
#[derive(Debug, PartialEq, Eq)]
pub enum RoundEvent {
    /// The fresh home exists with its caller-owned file; whether lock state
    /// was already there.
    HomePrepared { zpkg_root_exists: bool, locks_root_exists: bool, lock_exists: bool },
    Done,
    /// The contender that was collected exited.
    ChildExited(ChildReport),
    /// Whether the lock rendezvous exists.
    LockChecked { exists: bool },
    /// Whether the parent directories of the rendezvous are directories.
    ParentsChecked { zpkg_root_is_dir: bool, locks_root_is_dir: bool },
    /// The content of the caller-owned file.
    SentinelRead { bytes: Vec<u8> },
}

/// The next thing the coordinator's driver has to do.
#[derive(Debug, PartialEq, Eq)]
pub enum RoundAction {
    /// Create the home of round `round` under a fresh scratch directory
    /// (named by `round_root_name`, laid out by `place_components`), write the
    /// caller-owned file with `sentinel_bytes`, and answer with `HomePrepared`.
    PrepareHome { round: usize },
    /// Start contender `index` of round `round` with the arguments
    /// `contender_args` (owner name `owner_label`), waiting on the barrier;
    /// answer with `Done`.
    SpawnContender { round: usize, index: usize },
    /// Sleep that many milliseconds; answer with `Done`.
    Sleep { millis: u64 },
    /// Create the barrier file; answer with `Done`.
    OpenBarrier,
    /// Wait for contender `index` to exit; answer with `ChildExited`.
    CollectContender { index: usize },
    /// Answer with `LockChecked`.
    CheckLock,
    /// Answer with `ParentsChecked`.
    CheckParents,
    /// Answer with `SentinelRead`.
    ReadSentinel,
    /// Remove the barrier and the round's scratch directory; answer with
    /// `Done`.
    CleanUp,
    /// Print the line; answer with `Done`.
    Print(Line),
    /// Stop with this failure.
    Fail(Reason),
    /// Stop successfully.
    Exit,
}

/// Where a round is, between two actions.
#[derive(Clone, Copy, Debug, PartialEq, Eq)]
pub enum Phase {
    Preparing,
    /// Contender `index` is being started.
    Spawning { index: usize },
    Settling,
    Opening,
    /// Contender `index` is being collected; of those before it, `winners`
    /// won and `contended` found the lock taken.
    Collecting { index: usize, winners: usize, contended: usize },
    CheckingLock,
    CheckingParents,
    ReadingSentinel,
    CleaningUp,
    Summarizing,
    Finished,
}

/// The coordinator: the round under way and where it stands.
#[derive(Clone, Copy, Debug, PartialEq, Eq)]
pub struct Coordinator {
    pub round: usize,
    pub phase: Phase,
}

impl Coordinator {
    pub open spec fn wf(self) -> bool {
        &&& self.round < ROUNDS
        &&& match self.phase {
            Phase::Spawning { index } => index < PROCESSES_PER_WAVE,
            Phase::Collecting { index, winners, contended } => index < PROCESSES_PER_WAVE
                && winners + contended == index,
            _ => true,
        }
    }

    /// Whether `e` answers the action that the coordinator is waiting on.
    pub open spec fn awaits(self, e: RoundEvent) -> bool {
        match self.phase {
            Phase::Preparing => e is HomePrepared,
            Phase::Collecting { .. } => e is ChildExited,
            Phase::CheckingLock => e is LockChecked,
            Phase::CheckingParents => e is ParentsChecked,
            Phase::ReadingSentinel => e is SentinelRead,
            Phase::Finished => false,
            _ => e is Done,
        }
    }

    /// The coordinator's next state and action after `e`.
    pub open spec fn transition(self, e: RoundEvent) -> (Coordinator, RoundAction) {
        let round = self.round;
        let finish = Coordinator { round, phase: Phase::Finished };
        match self.phase {
            Phase::Preparing => match e {
                RoundEvent::HomePrepared { zpkg_root_exists, locks_root_exists, lock_exists } =>
                    if zpkg_root_exists || locks_root_exists || lock_exists {
                    (finish, RoundAction::Fail(Reason::DirtyHome))
                } else {
                    (
                        Coordinator { round, phase: Phase::Spawning { index: 0 } },
                        RoundAction::SpawnContender { round, index: 0 },
                    )
                },
                _ => (self, RoundAction::Exit),
            },
            Phase::Spawning { index } => if index + 1 < PROCESSES_PER_WAVE {
                (
                    Coordinator { round, phase: Phase::Spawning { index: (index + 1) as usize } },
                    RoundAction::SpawnContender { round, index: (index + 1) as usize },
                )
            } else {
                (
                    Coordinator { round, phase: Phase::Settling },
                    RoundAction::Sleep { millis: SETTLE_MILLIS },
                )
            },
            Phase::Settling => (
                Coordinator { round, phase: Phase::Opening },
                RoundAction::OpenBarrier,
            ),
            Phase::Opening => (
                Coordinator {
                    round,
                    phase: Phase::Collecting { index: 0, winners: 0, contended: 0 },
                },
                RoundAction::CollectContender { index: 0 },
            ),
            Phase::Collecting { index, winners, contended } => match e {
                RoundEvent::ChildExited(r) => match outcome(r) {
                    Outcome::Crashed => (
                        finish,
                        RoundAction::Fail(
                            Reason::ChildFailed { status: r.status, stderr: r.stderr },
                        ),
                    ),
                    Outcome::Unreadable => (
                        finish,
                        RoundAction::Fail(
                            Reason::UnreadableChildOutput { detail: r.stdout->Err_0 },
                        ),
                    ),
                    Outcome::Unrecognized => (
                        finish,
                        RoundAction::Fail(
                            Reason::UnexpectedChildResult { output: r.stdout->Ok_0 },
                        ),
                    ),
                    o => {
                        let w = if o is Won {
                            (winners + 1) as usize
                        } else {
                            winners
                        };
                        let c = if o is Lost {
                            (contended + 1) as usize
                        } else {
                            contended
                        };
                        if index + 1 < PROCESSES_PER_WAVE {
                            (
                                Coordinator {
                                    round,
                                    phase: Phase::Collecting {
                                        index: (index + 1) as usize,
                                        winners: w,
                                        contended: c,
                                    },
                                },
                                RoundAction::CollectContender { index: (index + 1) as usize },
                            )
                        } else if w == 1 && c == PROCESSES_PER_WAVE - 1 {
                            (
                                Coordinator { round, phase: Phase::CheckingLock },
                                RoundAction::CheckLock,
                            )
                        } else {
                            (
                                finish,
                                RoundAction::Fail(
                                    Reason::WaveMismatch { winners: w, contended: c },
                                ),
                            )
                        }
                    },
                },
                _ => (self, RoundAction::Exit),
            },
            Phase::CheckingLock => match e {
                RoundEvent::LockChecked { exists } => if exists {
                    (finish, RoundAction::Fail(Reason::LockLeftBehind))
                } else {
                    (
                        Coordinator { round, phase: Phase::CheckingParents },
                        RoundAction::CheckParents,
                    )
                },
                _ => (self, RoundAction::Exit),
            },
            Phase::CheckingParents => match e {
                RoundEvent::ParentsChecked { zpkg_root_is_dir, locks_root_is_dir } =>
                    if !zpkg_root_is_dir || !locks_root_is_dir {
                    (finish, RoundAction::Fail(Reason::ParentsRemoved))
                } else {
                    (
                        Coordinator { round, phase: Phase::ReadingSentinel },
                        RoundAction::ReadSentinel,
                    )
                },
                _ => (self, RoundAction::Exit),
            },
            Phase::ReadingSentinel => match e {
                RoundEvent::SentinelRead { bytes } => if bytes@ != sentinel_content() {
                    (finish, RoundAction::Fail(Reason::HomeStateModified))
                } else {
                    (Coordinator { round, phase: Phase::CleaningUp }, RoundAction::CleanUp)
                },
                _ => (self, RoundAction::Exit),
            },
            Phase::CleaningUp => if round + 1 < ROUNDS {
                (
                    Coordinator { round: (round + 1) as usize, phase: Phase::Preparing },
                    RoundAction::PrepareHome { round: (round + 1) as usize },
                )
            } else {
                (
                    Coordinator { round, phase: Phase::Summarizing },
                    RoundAction::Print(Line::Summary),
                )
            },
            Phase::Summarizing => (finish, RoundAction::Exit),
            Phase::Finished => (self, RoundAction::Exit),
        }
    }

    /// The first state and action of a run.
    pub fn start() -> (r: (Coordinator, RoundAction))
        ensures
            r == (Coordinator { round: 0, phase: Phase::Preparing }, RoundAction::PrepareHome {
                round: 0,
            }),
            r.0.wf(),
    {
        (Coordinator { round: 0, phase: Phase::Preparing }, RoundAction::PrepareHome { round: 0 })
    }

    /// Whether `e` answers the action that the coordinator is waiting on.
    pub fn accepts(&self, e: &RoundEvent) -> (b: bool)
        ensures
            b == self.awaits(*e),
    {
        match self.phase {
            Phase::Preparing => matches!(e, RoundEvent::HomePrepared { .. }),
            Phase::Collecting { .. } => matches!(e, RoundEvent::ChildExited(_)),
            Phase::CheckingLock => matches!(e, RoundEvent::LockChecked { .. }),
            Phase::CheckingParents => matches!(e, RoundEvent::ParentsChecked { .. }),
            Phase::ReadingSentinel => matches!(e, RoundEvent::SentinelRead { .. }),
            Phase::Finished => false,
            _ => matches!(e, RoundEvent::Done),
        }
    }

    /// Takes the answer to the last action and decides the next one.
    pub fn step(self, e: RoundEvent) -> (r: (Coordinator, RoundAction))
        requires
            self.wf(),
            self.awaits(e),
        ensures
            r == self.transition(e),
            r.0.wf(),
            self.phase is Preparing && (e->zpkg_root_exists || e->locks_root_exists
                || e->lock_exists) ==> r.1 == RoundAction::Fail(Reason::DirtyHome),
            r.1 is SpawnContender ==> self.phase is Spawning || (self.phase is Preparing
                && !e->zpkg_root_exists && !e->locks_root_exists && !e->lock_exists),
    {
        let round = self.round;
        let finish = Coordinator { round, phase: Phase::Finished };
        match self.phase {
            Phase::Preparing => match e {
                RoundEvent::HomePrepared { zpkg_root_exists, locks_root_exists, lock_exists } =>
                    if zpkg_root_exists || locks_root_exists || lock_exists {
                    (finish, RoundAction::Fail(Reason::DirtyHome))
                } else {
                    (
                        Coordinator { round, phase: Phase::Spawning { index: 0 } },
                        RoundAction::SpawnContender { round, index: 0 },
                    )
                },
                _ => (self, RoundAction::Exit),
            },
            Phase::Spawning { index } => if index + 1 < PROCESSES_PER_WAVE {
                (
                    Coordinator { round, phase: Phase::Spawning { index: index + 1 } },
                    RoundAction::SpawnContender { round, index: index + 1 },
                )
            } else {
                (
                    Coordinator { round, phase: Phase::Settling },
                    RoundAction::Sleep { millis: SETTLE_MILLIS },
                )
            },
            Phase::Settling => (
                Coordinator { round, phase: Phase::Opening },
                RoundAction::OpenBarrier,
            ),
            Phase::Opening => (
                Coordinator {
                    round,
                    phase: Phase::Collecting { index: 0, winners: 0, contended: 0 },
                },
                RoundAction::CollectContender { index: 0 },
            ),
            Phase::Collecting { index, winners, contended } => match e {
                RoundEvent::ChildExited(r) => {
                    let o = classify(&r);
                    let ChildReport { succeeded: _, status, stderr, stdout } = r;
                    match o {
                        Outcome::Crashed => (
                            finish,
                            RoundAction::Fail(Reason::ChildFailed { status, stderr }),
                        ),
                        Outcome::Unreadable => match stdout {
                            Err(detail) => (
                                finish,
                                RoundAction::Fail(Reason::UnreadableChildOutput { detail }),
                            ),
                            Ok(_) => (self, RoundAction::Exit),
                        },
                        Outcome::Unrecognized => match stdout {
                            Ok(output) => (
                                finish,
                                RoundAction::Fail(Reason::UnexpectedChildResult { output }),
                            ),
                            Err(_) => (self, RoundAction::Exit),
                        },
                        _ => {
                            let w = if matches!(o, Outcome::Won) {
                                winners + 1
                            } else {
                                winners
                            };
                            let c = if matches!(o, Outcome::Lost) {
                                contended + 1
                            } else {
                                contended
                            };
                            if index + 1 < PROCESSES_PER_WAVE {
                                (
                                    Coordinator {
                                        round,
                                        phase: Phase::Collecting {
                                            index: index + 1,
                                            winners: w,
                                            contended: c,
                                        },
                                    },
                                    RoundAction::CollectContender { index: index + 1 },
                                )
                            } else if w == 1 && c == PROCESSES_PER_WAVE - 1 {
                                (
                                    Coordinator { round, phase: Phase::CheckingLock },
                                    RoundAction::CheckLock,
                                )
                            } else {
                                (
                                    finish,
                                    RoundAction::Fail(
                                        Reason::WaveMismatch { winners: w, contended: c },
                                    ),
                                )
                            }
                        },
                    }
                },
                _ => (self, RoundAction::Exit),
            },
            Phase::CheckingLock => match e {
                RoundEvent::LockChecked { exists } => if exists {
                    (finish, RoundAction::Fail(Reason::LockLeftBehind))
                } else {
                    (
                        Coordinator { round, phase: Phase::CheckingParents },
                        RoundAction::CheckParents,
                    )
                },
                _ => (self, RoundAction::Exit),
            },
            Phase::CheckingParents => match e {
                RoundEvent::ParentsChecked { zpkg_root_is_dir, locks_root_is_dir } =>
                    if !zpkg_root_is_dir || !locks_root_is_dir {
                    (finish, RoundAction::Fail(Reason::ParentsRemoved))
                } else {
                    (
                        Coordinator { round, phase: Phase::ReadingSentinel },
                        RoundAction::ReadSentinel,
                    )
                },
                _ => (self, RoundAction::Exit),
            },
            Phase::ReadingSentinel => match e {
                RoundEvent::SentinelRead { bytes } => if !sentinel_intact(&bytes) {
                    (finish, RoundAction::Fail(Reason::HomeStateModified))
                } else {
                    (Coordinator { round, phase: Phase::CleaningUp }, RoundAction::CleanUp)
                },
                _ => (self, RoundAction::Exit),
            },
            Phase::CleaningUp => if round + 1 < ROUNDS {
                (
                    Coordinator { round: round + 1, phase: Phase::Preparing },
                    RoundAction::PrepareHome { round: round + 1 },
                )
            } else {
                (
                    Coordinator { round, phase: Phase::Summarizing },
                    RoundAction::Print(Line::Summary),
                )
            },
            Phase::Summarizing => (finish, RoundAction::Exit),
            Phase::Finished => (self, RoundAction::Exit),
        }
    }

    /// The actions that the coordinator takes from this state when its driver
    /// answers with `evs`, up to the first answer that it does not await.
    pub open spec fn run(self, evs: Seq<RoundEvent>) -> Seq<RoundAction>
        decreases evs.len(),
    {
        if evs.len() == 0 || !self.awaits(evs[0]) {
            seq![]
        } else {
            let (next, a) = self.transition(evs[0]);
            seq![a] + next.run(evs.drop_first())
        }
    }
}


/// The events of a driver that reports the exits of `reports`, in order.
pub open spec fn exits(reports: Seq<ChildReport>) -> Seq<RoundEvent> {
    reports.map_values(|r: ChildReport| RoundEvent::ChildExited(r))
}

/// Every contender printed one of the two verdicts.
pub open spec fn all_decided(reports: Seq<ChildReport>) -> bool {
    forall|i: int|
        0 <= i < reports.len() ==> (#[trigger] outcome(reports[i]) is Won || outcome(
            reports[i],
        ) is Lost)
}

/// Exactly one contender printed `WIN` and every other printed `CONTENDED`.
pub open spec fn exactly_one_winner(reports: Seq<ChildReport>) -> bool {
    exists|w: int|
        0 <= w < reports.len() && outcome(#[trigger] reports[w]) is Won && forall|i: int|
            0 <= i < reports.len() && i != w ==> outcome(#[trigger] reports[i]) is Lost
}

/// How many contenders printed `WIN`.
pub open spec fn won_count(reports: Seq<ChildReport>) -> nat
    decreases reports.len(),
{
    if reports.len() == 0 {
        0
    } else {
        (if outcome(reports[0]) is Won {
            1nat
        } else {
            0nat
        }) + won_count(reports.drop_first())
    }
}

proof fn lemma_none_won(rs: Seq<ChildReport>)
    requires
        all_decided(rs),
    ensures
        won_count(rs) == 0 <==> forall|i: int| 0 <= i < rs.len() ==> outcome(#[trigger] rs[i]) is Lost,
    decreases rs.len(),
{
    if rs.len() > 0 {
        let rest = rs.drop_first();
        assert forall|i: int| 0 <= i < rest.len() implies (#[trigger] outcome(rest[i]) is Won
            || outcome(rest[i]) is Lost) by {
            assert(rest[i] == rs[i + 1]);
        }
        lemma_none_won(rest);
        assert(outcome(rs[0]) is Won || outcome(rs[0]) is Lost);
        if won_count(rs) == 0 {
            assert forall|i: int| 0 <= i < rs.len() implies outcome(#[trigger] rs[i]) is Lost by {
                if i > 0 {
                    assert(rs[i] == rest[i - 1]);
                }
            }
        }
        if forall|i: int| 0 <= i < rs.len() ==> outcome(#[trigger] rs[i]) is Lost {
            assert(outcome(rs[0]) is Lost);
            assert forall|i: int| 0 <= i < rest.len() implies outcome(#[trigger] rest[i]) is Lost by {
                assert(rest[i] == rs[i + 1]);
            }
        }
    }
}

proof fn lemma_one_won(rs: Seq<ChildReport>)
    requires
        all_decided(rs),
    ensures
        won_count(rs) == 1 <==> exactly_one_winner(rs),
    decreases rs.len(),
{
    if rs.len() > 0 {
        let rest = rs.drop_first();
        assert forall|i: int| 0 <= i < rest.len() implies (#[trigger] outcome(rest[i]) is Won
            || outcome(rest[i]) is Lost) by {
            assert(rest[i] == rs[i + 1]);
        }
        lemma_none_won(rest);
        lemma_one_won(rest);
        assert(outcome(rs[0]) is Won || outcome(rs[0]) is Lost);
        if outcome(rs[0]) is Won {
            if won_count(rs) == 1 {
                assert forall|i: int| 0 <= i < rs.len() && i != 0 implies outcome(
                    #[trigger] rs[i],
                ) is Lost by {
                    assert(rs[i] == rest[i - 1]);
                }
                assert(exactly_one_winner(rs));
            }
            if exactly_one_winner(rs) {
                let w = choose|w: int|
                    0 <= w < rs.len() && outcome(#[trigger] rs[w]) is Won && forall|i: int|
                        0 <= i < rs.len() && i != w ==> outcome(#[trigger] rs[i]) is Lost;
                if w != 0 {
                    assert(outcome(rs[0]) is Lost);
                }
                assert forall|i: int| 0 <= i < rest.len() implies outcome(#[trigger] rest[i]) is Lost by {
                    assert(rest[i] == rs[i + 1]);
                }
            }
        } else {
            if exactly_one_winner(rest) {
                let w = choose|w: int|
                    0 <= w < rest.len() && outcome(#[trigger] rest[w]) is Won && forall|i: int|
                        0 <= i < rest.len() && i != w ==> outcome(#[trigger] rest[i]) is Lost;
                assert(rs[w + 1] == rest[w]);
                assert forall|i: int| 0 <= i < rs.len() && i != w + 1 implies outcome(
                    #[trigger] rs[i],
                ) is Lost by {
                    if i > 0 {
                        assert(rs[i] == rest[i - 1]);
                    }
                }
                assert(exactly_one_winner(rs));
            }
            if exactly_one_winner(rs) {
                let w = choose|w: int|
                    0 <= w < rs.len() && outcome(#[trigger] rs[w]) is Won && forall|i: int|
                        0 <= i < rs.len() && i != w ==> outcome(#[trigger] rs[i]) is Lost;
                assert(w != 0);
                assert(rest[w - 1] == rs[w]);
                assert forall|i: int| 0 <= i < rest.len() && i != w - 1 implies outcome(
                    #[trigger] rest[i],
                ) is Lost by {
                    assert(rest[i] == rs[i + 1]);
                }
                assert(exactly_one_winner(rest));
            }
        }
    }
}

proof fn lemma_collect(c: Coordinator, rs: Seq<ChildReport>)
    requires
        c.wf(),
        c.phase is Collecting,
        c.phase->Collecting_index + rs.len() == PROCESSES_PER_WAVE,
    ensures
        c.run(exits(rs)).len() > 0,
        (c.run(exits(rs)).last() == RoundAction::CheckLock) <==> (all_decided(rs)
            && c.phase->Collecting_winners + won_count(rs) == 1),
        !(all_decided(rs) && c.phase->Collecting_winners + won_count(rs) == 1) ==> c.run(
            exits(rs),
        ).last() is Fail,
    decreases rs.len(),
{
    let evs = exits(rs);
    let r = rs[0];
    let rest = rs.drop_first();
    assert(evs[0] == RoundEvent::ChildExited(r));
    assert(evs.drop_first() =~= exits(rest));
    let (next, a) = c.transition(evs[0]);
    assert(c.run(evs) == seq![a] + next.run(exits(rest)));
    assert(all_decided(rs) <==> ((outcome(r) is Won || outcome(r) is Lost) && all_decided(rest)))
        by {
        if all_decided(rs) {
            assert(outcome(rs[0]) is Won || outcome(rs[0]) is Lost);
            assert forall|i: int| 0 <= i < rest.len() implies (#[trigger] outcome(rest[i]) is Won
                || outcome(rest[i]) is Lost) by {
                assert(rest[i] == rs[i + 1]);
            }
        }
        if (outcome(r) is Won || outcome(r) is Lost) && all_decided(rest) {
            assert forall|i: int| 0 <= i < rs.len() implies (#[trigger] outcome(rs[i]) is Won
                || outcome(rs[i]) is Lost) by {
                if i > 0 {
                    assert(rs[i] == rest[i - 1]);
                }
            }
        }
    }
    if outcome(r) is Won || outcome(r) is Lost {
        let n = c.phase->Collecting_index;
        let w = c.phase->Collecting_winners;
        let k = c.phase->Collecting_contended;
        let w2 = if outcome(r) is Won {
            w + 1
        } else {
            w as int
        };
        let k2 = if outcome(r) is Lost {
            k + 1
        } else {
            k as int
        };
        assert(w2 + k2 == n + 1);
        assert(won_count(rs) == (if outcome(r) is Won {
            1nat
        } else {
            0nat
        }) + won_count(rest));
        if rest.len() > 0 {
            assert(next == Coordinator {
                round: c.round,
                phase: Phase::Collecting {
                    index: (n + 1) as usize,
                    winners: w2 as usize,
                    contended: k2 as usize,
                },
            });
            lemma_collect(next, rest);
            assert((seq![a] + next.run(exits(rest))).last() == next.run(exits(rest)).last());
        } else {
            assert(won_count(rest) == 0);
            assert(next.run(exits(rest)) =~= seq![]);
            assert(seq![a] + next.run(exits(rest)) =~= seq![a]);
            if w2 == 1 {
                assert(a == RoundAction::CheckLock);
            } else {
                assert(a is Fail);
            }
        }
    } else {
        assert(next.phase is Finished);
        assert(next.run(exits(rest)) =~= seq![]);
        assert(seq![a] + next.run(exits(rest)) =~= seq![a]);
    }
}

/// A round's collection of its contenders moves on to the checks after the
/// release if and only if exactly one contender printed `WIN` and every other
/// printed `CONTENDED`; in every other case the round ends in a failure.
pub proof fn lemma_wave_verdict(round: usize, reports: Seq<ChildReport>)
    requires
        round < ROUNDS,
        reports.len() == PROCESSES_PER_WAVE,
    ensures
        ({
            let acts = (Coordinator {
                round,
                phase: Phase::Collecting { index: 0, winners: 0, contended: 0 },
            }).run(exits(reports));
            &&& acts.len() > 0
            &&& (acts.last() == RoundAction::CheckLock) <==> exactly_one_winner(reports)
            &&& !exactly_one_winner(reports) ==> acts.last() is Fail
        }),
{
    let c = Coordinator { round, phase: Phase::Collecting { index: 0, winners: 0, contended: 0 } };
    lemma_collect(c, reports);
    lemma_one_winner_decided(reports);
    if all_decided(reports) {
        lemma_one_won(reports);
    }
}

proof fn lemma_one_winner_decided(rs: Seq<ChildReport>)
    ensures
        exactly_one_winner(rs) ==> all_decided(rs),
{
    if exactly_one_winner(rs) {
        let w = choose|w: int|
            0 <= w < rs.len() && outcome(#[trigger] rs[w]) is Won && forall|i: int|
                0 <= i < rs.len() && i != w ==> outcome(#[trigger] rs[i]) is Lost;
        assert forall|i: int| 0 <= i < rs.len() implies (#[trigger] outcome(rs[i]) is Won
            || outcome(rs[i]) is Lost) by {
            if i != w {
                assert(outcome(rs[i]) is Lost);
            }
        }
    }
}


impl Coordinator {
    /// Before the checks that follow a round's collection.
    spec fn before_checks(self) -> bool {
        self.phase is Preparing || self.phase is Spawning || self.phase is Settling
            || self.phase is Opening || self.phase is Collecting
    }

    /// Rounds whose collection still has to pass.
    spec fn checks_left(self) -> int {
        if self.phase is Summarizing || self.phase is Finished {
            0
        } else if self.before_checks() {
            ROUNDS - self.round
        } else {
            ROUNDS - self.round - 1
        }
    }

    /// Rounds that still have to be cleaned up.
    spec fn cleanups_left(self) -> int {
        if self.phase is Summarizing || self.phase is Finished {
            0
        } else if self.phase is CleaningUp {
            ROUNDS - self.round - 1
        } else {
            ROUNDS - self.round
        }
    }

    /// Contenders that still have to be started.
    spec fn spawns_left(self) -> int {
        if self.phase is Summarizing || self.phase is Finished {
            0
        } else if self.phase is Preparing {
            (ROUNDS - self.round) * PROCESSES_PER_WAVE
        } else if self.phase is Spawning {
            (ROUNDS - self.round - 1) * PROCESSES_PER_WAVE + PROCESSES_PER_WAVE
                - self.phase->Spawning_index - 1
        } else {
            (ROUNDS - self.round - 1) * PROCESSES_PER_WAVE
        }
    }
}

proof fn lemma_completed_run(c: Coordinator, evs: Seq<RoundEvent>)
    requires
        c.wf(),
        c.run(evs).len() > 0,
        c.run(evs).last() is Exit,
    ensures
        occurrences(c.run(evs), |a: RoundAction| a is CheckLock) == c.checks_left(),
        occurrences(c.run(evs), |a: RoundAction| a is CleanUp) == c.cleanups_left(),
        occurrences(c.run(evs), |a: RoundAction| a is SpawnContender) == c.spawns_left(),
    decreases evs.len(),
{
    let (next, a) = c.transition(evs[0]);
    let rest = evs.drop_first();
    assert(next.wf());
    lemma_occurrences_cons(a, next.run(rest), |a: RoundAction| a is CheckLock);
    lemma_occurrences_cons(a, next.run(rest), |a: RoundAction| a is CleanUp);
    lemma_occurrences_cons(a, next.run(rest), |a: RoundAction| a is SpawnContender);
    if next.run(rest).len() == 0 {
        assert(c.run(evs) =~= seq![a]);
        assert(occurrences(next.run(rest), |a: RoundAction| a is CheckLock) == 0);
        assert(occurrences(next.run(rest), |a: RoundAction| a is CleanUp) == 0);
        assert(occurrences(next.run(rest), |a: RoundAction| a is SpawnContender) == 0);
        assert(c.phase is Summarizing);
    } else {
        assert(c.run(evs).last() == next.run(rest).last());
        lemma_completed_run(next, rest);
    }
}

/// The run of the coordinator from its first state, driven by `evs`.
pub open spec fn coordinator_run(evs: Seq<RoundEvent>) -> Seq<RoundAction> {
    (Coordinator { round: 0, phase: Phase::Preparing }).run(evs)
}

/// The canary ends successfully only after all `ROUNDS` rounds, each of which
/// started `PROCESSES_PER_WAVE` contenders, got past its collection (which
/// takes exactly one winner, see `lemma_wave_verdict`) and passed its checks
/// after the release up to the clean-up.
pub proof fn lemma_success_takes_every_round(evs: Seq<RoundEvent>)
    requires
        coordinator_run(evs).len() > 0,
        coordinator_run(evs).last() is Exit,
    ensures
        occurrences(coordinator_run(evs), |a: RoundAction| a is SpawnContender) == ROUNDS
            * PROCESSES_PER_WAVE,
        occurrences(coordinator_run(evs), |a: RoundAction| a is CheckLock) == ROUNDS,
        occurrences(coordinator_run(evs), |a: RoundAction| a is CleanUp) == ROUNDS,
{
    lemma_completed_run(Coordinator { round: 0, phase: Phase::Preparing }, evs);
}


/// The actions of the coordinator driven by `evs` from the checks that follow
/// a passed wave of round `round`.
pub open spec fn aftermath_run(round: usize, evs: Seq<RoundEvent>) -> Seq<RoundAction> {
    (Coordinator { round, phase: Phase::CheckingLock }).run(evs)
}

/// After a wave passed, the coordinator cleans the round up (and so moves on)
/// only when the rendezvous was found gone, both caller-owned parent
/// directories were found, and the caller-owned file still held what was
/// written into it, in that order.
pub proof fn lemma_cleanup_needs_clean_aftermath(round: usize, evs: Seq<RoundEvent>)
    requires
        round < ROUNDS,
        occurrences(aftermath_run(round, evs), |a: RoundAction| a is CleanUp) > 0,
    ensures
        evs.len() >= 3,
        (evs[0] == RoundEvent::LockChecked { exists: false }),
        (evs[1] == RoundEvent::ParentsChecked { zpkg_root_is_dir: true, locks_root_is_dir: true }),
        evs[2] is SentinelRead && evs[2]->bytes@ == sentinel_content(),
{
    let pick = |a: RoundAction| a is CleanUp;
    let c0 = Coordinator { round, phase: Phase::CheckingLock };
    let finish = Coordinator { round, phase: Phase::Finished };
    if evs.len() == 0 || !c0.awaits(evs[0]) {
        assert(c0.run(evs) =~= seq![]);
        assert(false);
    }
    let (c1, a0) = c0.transition(evs[0]);
    let r1 = evs.drop_first();
    lemma_occurrences_cons(a0, c1.run(r1), pick);
    if c1 == finish {
        assert(c1.run(r1) =~= seq![]);
        assert(false);
    }
    assert(evs[0] == RoundEvent::LockChecked { exists: false });
    if r1.len() == 0 || !c1.awaits(r1[0]) {
        assert(c1.run(r1) =~= seq![]);
        assert(false);
    }
    let (c2, a1) = c1.transition(r1[0]);
    let r2 = r1.drop_first();
    lemma_occurrences_cons(a1, c2.run(r2), pick);
    if c2 == finish {
        assert(c2.run(r2) =~= seq![]);
        assert(false);
    }
    assert(evs[1] == r1[0]);
    if r2.len() == 0 || !c2.awaits(r2[0]) {
        assert(c2.run(r2) =~= seq![]);
        assert(false);
    }
    let (c3, a2) = c2.transition(r2[0]);
    lemma_occurrences_cons(a2, c3.run(r2.drop_first()), pick);
    assert(evs[2] == r2[0]);
    if c3 == finish {
        assert(c3.run(r2.drop_first()) =~= seq![]);
        assert(false);
    }
}


/// The clean-home gate of a round: a freshly prepared home in which the
/// `.zpkg` directory, its `locks` directory or the rendezvous already exists
/// fails the round at once; only a home with none of them lets the round start
/// its first contender.
pub proof fn lemma_clean_home_gate(c: Coordinator, e: RoundEvent)
    requires
        c.wf(),
        c.phase is Preparing,
        e is HomePrepared,
    ensures
        e->zpkg_root_exists || e->locks_root_exists || e->lock_exists ==> c.transition(e).1
            == RoundAction::Fail(Reason::DirtyHome) && c.transition(e).0.phase is Finished,
        (!e->zpkg_root_exists && !e->locks_root_exists && !e->lock_exists ==> c.transition(e).1
            == RoundAction::SpawnContender { round: c.round, index: 0 }),
{
}

/// The report of a prepared home that holds no lock state.
pub open spec fn clean_home_report() -> RoundEvent {
    RoundEvent::HomePrepared { zpkg_root_exists: false, locks_root_exists: false, lock_exists: false }
}

proof fn lemma_spawn_after_clean_home(c: Coordinator, evs: Seq<RoundEvent>, k: int)
    requires
        0 <= k < c.run(evs).len(),
        c.run(evs)[k] is SpawnContender,
    ensures
        c.phase is Spawning || exists|j: int|
            0 <= j <= k && j < evs.len() && evs[j] == clean_home_report(),
    decreases evs.len(),
{
    let (next, a) = c.transition(evs[0]);
    let rest = evs.drop_first();
    assert(c.run(evs) == seq![a] + next.run(rest));
    if k == 0 {
        if !(c.phase is Spawning) {
            assert(evs[0] == clean_home_report());
        }
    } else {
        assert(c.run(evs)[k] == next.run(rest)[k - 1]);
        lemma_spawn_after_clean_home(next, rest, k - 1);
        if next.phase is Spawning {
            if !(c.phase is Spawning) {
                assert(evs[0] == clean_home_report());
            }
        } else {
            let j = choose|j: int|
                0 <= j <= k - 1 && j < rest.len() && rest[j] == clean_home_report();
            assert(evs[j + 1] == rest[j]);
        }
    }
}

/// The coordinator starts a contender only after a home was reported
/// prepared with neither the `.zpkg` directory, nor its `locks` directory, nor
/// the rendezvous in it.
pub proof fn lemma_contenders_start_only_in_clean_homes(evs: Seq<RoundEvent>, k: int)
    requires
        0 <= k < coordinator_run(evs).len(),
        coordinator_run(evs)[k] is SpawnContender,
    ensures
        exists|j: int|
            0 <= j <= k && j < evs.len() && evs[j] == clean_home_report(),
{
    lemma_spawn_after_clean_home(Coordinator { round: 0, phase: Phase::Preparing }, evs, k);
}

} // verus!
