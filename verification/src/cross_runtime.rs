//! The cross-runtime probe: one lock operation on request, so that programs
//! written against other runtimes can be checked against the same rendezvous.
//!
//! `hold <path> <owner> <release>` takes the lock, prints `HELD`, and keeps it
//! until the file `release` appears (at most `RELEASE_TIMEOUT_SECS`), then
//! releases it and prints `RELEASED`. `contend <path> <owner>` expects the lock
//! to be held by someone else and prints `CONTENDED`. `acquire <path> <owner>`
//! expects to take the lock, prints `ACQUIRED` and releases it.
use vstd::prelude::*;
use vstd::string::StringExecFns;
use crate::error::CanaryError;
use crate::protocol::LockAction;
use crate::protocol::LockEvent;
use crate::protocol::occurrences;
use crate::protocol::lemma_occurrences_cons;
use crate::text::debug_text;
use crate::text::debug_quoted;

verus! {

pub const RELEASE_TIMEOUT_SECS: u64 = 20;

pub const RELEASE_POLL_MILLIS: u64 = 5;

/// Wraps a message as the probe's failure.
pub fn failure(message: String) -> (e: CanaryError)
    ensures
        e.message == message,
{
    CanaryError { message }
}

/// Why the probe fails.
#[derive(Debug, PartialEq, Eq)]
pub enum Reason {
    MissingMode,
    MissingPath,
    MissingOwner,
    MissingReleaseSentinel,
    /// The first argument named no mode; the argument.
    UnknownMode { mode: String },
    /// `hold` found the lock taken.
    HolderContended,
    /// `hold` waited too long for its release file.
    ReleaseTimeout,
    /// `contend` took a lock that should have been held elsewhere.
    ContenderAcquired,
    /// `acquire` found the lock taken.
    PostReleaseContended,
}

/// The message that goes with each failure.
pub open spec fn reason_text(r: Reason) -> Seq<char> {
    match r {
        Reason::MissingMode => "missing mode"@,
        Reason::MissingPath => "missing path"@,
        Reason::MissingOwner => "missing owner"@,
        Reason::MissingReleaseSentinel => "missing release sentinel"@,
        Reason::UnknownMode { mode } => "unknown mode "@ + debug_text(mode@),
        Reason::HolderContended => "holder unexpectedly contended"@,
        Reason::ReleaseTimeout => "timed out waiting for release sentinel"@,
        Reason::ContenderAcquired => "contender unexpectedly acquired live cross-runtime lock"@,
        Reason::PostReleaseContended => "post-release acquire unexpectedly contended"@,
    }
}

/// The failure, with its message, that the probe reports for `r`.
pub fn explain(r: Reason) -> (e: CanaryError)
    ensures
        e.message@ == reason_text(r),
{
    let message = match r {
        Reason::MissingMode => String::from_str("missing mode"),
        Reason::MissingPath => String::from_str("missing path"),
        Reason::MissingOwner => String::from_str("missing owner"),
        Reason::MissingReleaseSentinel => String::from_str("missing release sentinel"),
        Reason::UnknownMode { mode } => {
            let mut m = String::from_str("unknown mode ");
            let q = debug_quoted(mode.as_str());
            m.append(q.as_str());
            m
        },
        Reason::HolderContended => String::from_str("holder unexpectedly contended"),
        Reason::ReleaseTimeout => String::from_str("timed out waiting for release sentinel"),
        Reason::ContenderAcquired => String::from_str(
            "contender unexpectedly acquired live cross-runtime lock",
        ),
        Reason::PostReleaseContended => String::from_str(
            "post-release acquire unexpectedly contended",
        ),
    };
    failure(message)
}

/// The lines that the probe prints.
#[derive(Clone, Copy, Debug, PartialEq, Eq)]
pub enum Line {
    Held,
    Released,
    Contended,
    Acquired,
}

pub open spec fn line_spec(l: Line) -> Seq<char> {
    match l {
        Line::Held => "HELD"@,
        Line::Released => "RELEASED"@,
        Line::Contended => "CONTENDED"@,
        Line::Acquired => "ACQUIRED"@,
    }
}

/// The text of a printed line.
pub fn line_text(l: Line) -> (s: String)
    ensures
        s@ == line_spec(l),
{
    match l {
        Line::Held => String::from_str("HELD"),
        Line::Released => String::from_str("RELEASED"),
        Line::Contended => String::from_str("CONTENDED"),
        Line::Acquired => String::from_str("ACQUIRED"),
    }
}

/// What the probe was asked to do.
#[derive(Debug, PartialEq, Eq)]
pub enum Mode {
    /// Hold the lock until the file `release` appears.
    Hold { release: String },
    Contend,
    Acquire,
}

/// A probe's command line: its mode, the lock's path and the owner name.
#[derive(Debug, PartialEq, Eq)]
pub struct Command {
    pub mode: Mode,
    pub path: String,
    pub owner: String,
}

/// The command that the arguments `args` (program name first) give.
pub open spec fn command_of(args: Seq<String>) -> Result<Command, Reason> {
    if args.len() <= 1 {
        Err(Reason::MissingMode)
    } else if args.len() <= 2 {
        Err(Reason::MissingPath)
    } else if args.len() <= 3 {
        Err(Reason::MissingOwner)
    } else if args[1]@ == "hold"@ {
        if args.len() <= 4 {
            Err(Reason::MissingReleaseSentinel)
        } else {
            Ok(Command { mode: Mode::Hold { release: args[4] }, path: args[2], owner: args[3] })
        }
    } else if args[1]@ == "contend"@ {
        Ok(Command { mode: Mode::Contend, path: args[2], owner: args[3] })
    } else if args[1]@ == "acquire"@ {
        Ok(Command { mode: Mode::Acquire, path: args[2], owner: args[3] })
    } else {
        Err(Reason::UnknownMode { mode: args[1] })
    }
}

/// Reads the command line.
pub fn parse_command(args: &Vec<String>) -> (r: Result<Command, Reason>)
    ensures
        r == command_of(args@),
        r is Ok ==> args.len() > 3 && r->Ok_0.path == args@[2] && r->Ok_0.owner == args@[3],
        r is Ok ==> (r->Ok_0.mode is Hold <==> args@[1]@ == "hold"@),
        r is Ok ==> (r->Ok_0.mode is Contend <==> args@[1]@ == "contend"@),
        r is Ok ==> (r->Ok_0.mode is Acquire <==> args@[1]@ == "acquire"@),
{
    proof {
        lemma_mode_names_differ();
    }
    if args.len() <= 1 {
        return Err(Reason::MissingMode);
    }
    if args.len() <= 2 {
        return Err(Reason::MissingPath);
    }
    if args.len() <= 3 {
        return Err(Reason::MissingOwner);
    }
    let path = args[2].clone();
    let owner = args[3].clone();
    if args[1] == String::from_str("hold") {
        if args.len() <= 4 {
            Err(Reason::MissingReleaseSentinel)
        } else {
            Ok(Command { mode: Mode::Hold { release: args[4].clone() }, path, owner })
        }
    } else if args[1] == String::from_str("contend") {
        Ok(Command { mode: Mode::Contend, path, owner })
    } else if args[1] == String::from_str("acquire") {
        Ok(Command { mode: Mode::Acquire, path, owner })
    } else {
        Err(Reason::UnknownMode { mode: args[1].clone() })
    }
}

/// The kind of a mode, without its file.
#[derive(Clone, Copy, Debug, PartialEq, Eq)]
pub enum ProbeMode {
    Hold,
    Contend,
    Acquire,
}

pub open spec fn kind_of(m: Mode) -> ProbeMode {
    match m {
        Mode::Hold { .. } => ProbeMode::Hold,
        Mode::Contend => ProbeMode::Contend,
        Mode::Acquire => ProbeMode::Acquire,
    }
}

pub fn mode_kind(m: &Mode) -> (k: ProbeMode)
    ensures
        k == kind_of(*m),
        k is Hold <==> *m is Hold,
        k is Contend <==> *m is Contend,
        k is Acquire <==> *m is Acquire,
{
    match m {
        Mode::Hold { .. } => ProbeMode::Hold,
        Mode::Contend => ProbeMode::Contend,
        Mode::Acquire => ProbeMode::Acquire,
    }
}

pub type ProbeAction = LockAction<Line, Reason>;

/// Where a probe is, between two actions.
#[derive(Clone, Copy, Debug, PartialEq, Eq)]
pub enum Stage {
    /// The one try for the lock is under way.
    Acquiring,
    /// A line announcing the taken lock is being printed.
    Announced,
    /// The release deadline is being armed.
    Arming,
    /// Looking for the release file.
    Watching,
    /// Sleeping between two looks at the release file.
    Pausing,
    /// The lock is being released.
    Releasing,
    /// The last line is being printed.
    Reporting,
    /// Nothing more to do.
    Finished,
}

/// A probe: its mode and where it stands.
#[derive(Clone, Copy, Debug, PartialEq, Eq)]
pub struct Probe {
    pub mode: ProbeMode,
    pub stage: Stage,
}

impl Probe {
    /// Whether `e` answers the action that the probe is waiting on.
    pub open spec fn awaits(self, e: LockEvent) -> bool {
        match self.stage {
            Stage::Acquiring => e is Acquired,
            Stage::Watching => e is Checked,
            Stage::Finished => false,
            _ => e is Done,
        }
    }

    /// The probe's next state and action after `e`.
    pub open spec fn transition(self, e: LockEvent) -> (Probe, ProbeAction) {
        let mode = self.mode;
        let at = |stage: Stage| Probe { mode, stage };
        match self.stage {
            Stage::Acquiring => match e {
                LockEvent::Acquired(won) => match mode {
                    ProbeMode::Hold => if won {
                        (at(Stage::Announced), LockAction::Print { line: Line::Held, flush: true })
                    } else {
                        (at(Stage::Finished), LockAction::Fail(Reason::HolderContended))
                    },
                    ProbeMode::Contend => if won {
                        (at(Stage::Releasing), LockAction::Release)
                    } else {
                        (
                            at(Stage::Reporting),
                            LockAction::Print { line: Line::Contended, flush: false },
                        )
                    },
                    ProbeMode::Acquire => if won {
                        (
                            at(Stage::Announced),
                            LockAction::Print { line: Line::Acquired, flush: false },
                        )
                    } else {
                        (at(Stage::Finished), LockAction::Fail(Reason::PostReleaseContended))
                    },
                },
                _ => (self, LockAction::Exit),
            },
            Stage::Announced => match mode {
                ProbeMode::Hold => (
                    at(Stage::Arming),
                    LockAction::ArmDeadline { seconds: RELEASE_TIMEOUT_SECS },
                ),
                _ => (at(Stage::Releasing), LockAction::Release),
            },
            Stage::Arming => (at(Stage::Watching), LockAction::CheckFile),
            Stage::Watching => match e {
                LockEvent::Checked { present, expired } => if present {
                    (at(Stage::Releasing), LockAction::Release)
                } else if expired {
                    (at(Stage::Finished), LockAction::Fail(Reason::ReleaseTimeout))
                } else {
                    (at(Stage::Pausing), LockAction::Sleep { millis: RELEASE_POLL_MILLIS })
                },
                _ => (self, LockAction::Exit),
            },
            Stage::Pausing => (at(Stage::Watching), LockAction::CheckFile),
            Stage::Releasing => match mode {
                ProbeMode::Hold => (
                    at(Stage::Reporting),
                    LockAction::Print { line: Line::Released, flush: false },
                ),
                ProbeMode::Contend => (
                    at(Stage::Finished),
                    LockAction::Fail(Reason::ContenderAcquired),
                ),
                ProbeMode::Acquire => (at(Stage::Finished), LockAction::Exit),
            },
            Stage::Reporting => (at(Stage::Finished), LockAction::Exit),
            Stage::Finished => (self, LockAction::Exit),
        }
    }

    /// The first state and action of a probe: every mode starts with its one
    /// try for the lock.
    pub fn start(mode: ProbeMode) -> (r: (Probe, ProbeAction))
        ensures
            r == (Probe { mode, stage: Stage::Acquiring }, LockAction::TryAcquire::<Line, Reason>),
    {
        (Probe { mode, stage: Stage::Acquiring }, LockAction::TryAcquire)
    }

    /// Whether `e` answers the action that the probe is waiting on.
    pub fn accepts(&self, e: &LockEvent) -> (b: bool)
        ensures
            b == self.awaits(*e),
    {
        match self.stage {
            Stage::Acquiring => matches!(e, LockEvent::Acquired(_)),
            Stage::Watching => matches!(e, LockEvent::Checked { .. }),
            Stage::Finished => false,
            _ => matches!(e, LockEvent::Done),
        }
    }

    /// Takes the answer to the last action and decides the next one.
    pub fn step(self, e: LockEvent) -> (r: (Probe, ProbeAction))
        requires
            self.awaits(e),
        ensures
            r == self.transition(e),
    {
        let mode = self.mode;
        match self.stage {
            Stage::Acquiring => match e {
                LockEvent::Acquired(won) => match mode {
                    ProbeMode::Hold => if won {
                        (
                            Probe { mode, stage: Stage::Announced },
                            LockAction::Print { line: Line::Held, flush: true },
                        )
                    } else {
                        (
                            Probe { mode, stage: Stage::Finished },
                            LockAction::Fail(Reason::HolderContended),
                        )
                    },
                    ProbeMode::Contend => if won {
                        (Probe { mode, stage: Stage::Releasing }, LockAction::Release)
                    } else {
                        (
                            Probe { mode, stage: Stage::Reporting },
                            LockAction::Print { line: Line::Contended, flush: false },
                        )
                    },
                    ProbeMode::Acquire => if won {
                        (
                            Probe { mode, stage: Stage::Announced },
                            LockAction::Print { line: Line::Acquired, flush: false },
                        )
                    } else {
                        (
                            Probe { mode, stage: Stage::Finished },
                            LockAction::Fail(Reason::PostReleaseContended),
                        )
                    },
                },
                _ => (self, LockAction::Exit),
            },
            Stage::Announced => match mode {
                ProbeMode::Hold => (
                    Probe { mode, stage: Stage::Arming },
                    LockAction::ArmDeadline { seconds: RELEASE_TIMEOUT_SECS },
                ),
                _ => (Probe { mode, stage: Stage::Releasing }, LockAction::Release),
            },
            Stage::Arming => (Probe { mode, stage: Stage::Watching }, LockAction::CheckFile),
            Stage::Watching => match e {
                LockEvent::Checked { present, expired } => if present {
                    (Probe { mode, stage: Stage::Releasing }, LockAction::Release)
                } else if expired {
                    (
                        Probe { mode, stage: Stage::Finished },
                        LockAction::Fail(Reason::ReleaseTimeout),
                    )
                } else {
                    (
                        Probe { mode, stage: Stage::Pausing },
                        LockAction::Sleep { millis: RELEASE_POLL_MILLIS },
                    )
                },
                _ => (self, LockAction::Exit),
            },
            Stage::Pausing => (Probe { mode, stage: Stage::Watching }, LockAction::CheckFile),
            Stage::Releasing => match mode {
                ProbeMode::Hold => (
                    Probe { mode, stage: Stage::Reporting },
                    LockAction::Print { line: Line::Released, flush: false },
                ),
                ProbeMode::Contend => (
                    Probe { mode, stage: Stage::Finished },
                    LockAction::Fail(Reason::ContenderAcquired),
                ),
                ProbeMode::Acquire => (Probe { mode, stage: Stage::Finished }, LockAction::Exit),
            },
            Stage::Reporting => (Probe { mode, stage: Stage::Finished }, LockAction::Exit),
            Stage::Finished => (self, LockAction::Exit),
        }
    }

    /// The actions that the probe takes from this state when its driver
    /// answers with `evs`, up to the first answer that it does not await.
    pub open spec fn run(self, evs: Seq<LockEvent>) -> Seq<ProbeAction>
        decreases evs.len(),
    {
        if evs.len() == 0 || !self.awaits(evs[0]) {
            seq![]
        } else {
            let (next, a) = self.transition(evs[0]);
            seq![a] + next.run(evs.drop_first())
        }
    }
}


/// The actions that a probe in mode `mode`, driven by `evs`, takes after its
/// try for the lock.
pub open spec fn probe_run(mode: ProbeMode, evs: Seq<LockEvent>) -> Seq<ProbeAction> {
    (Probe { mode, stage: Stage::Acquiring }).run(evs)
}

/// Whether the probe stopped: it failed or exited.
pub open spec fn stops(a: ProbeAction) -> bool {
    a is Fail || a is Exit
}

impl Probe {
    /// Holding the taken lock, with its release still to come.
    spec fn holding(self) -> bool {
        self.stage is Announced || self.stage is Arming || self.stage is Watching
            || self.stage is Pausing
    }

    spec fn may_release(self) -> bool {
        self.stage is Acquiring || self.holding()
    }
}

proof fn lemma_probe_budget(s: Probe, evs: Seq<LockEvent>)
    ensures
        occurrences(s.run(evs), |a: ProbeAction| a is TryAcquire) == 0,
        occurrences(s.run(evs), |a: ProbeAction| a is Release) <= (if s.may_release() {
            1nat
        } else {
            0nat
        }),
    decreases evs.len(),
{
    if evs.len() == 0 || !s.awaits(evs[0]) {
    } else {
        let (next, a) = s.transition(evs[0]);
        lemma_probe_budget(next, evs.drop_first());
        lemma_occurrences_cons(a, next.run(evs.drop_first()), |a: ProbeAction| a is TryAcquire);
        lemma_occurrences_cons(a, next.run(evs.drop_first()), |a: ProbeAction| a is Release);
    }
}

proof fn lemma_holder_releases(s: Probe, evs: Seq<LockEvent>)
    requires
        s.holding(),
        s.run(evs).len() > 0,
        stops(s.run(evs).last()),
        s.run(evs).last() != LockAction::<Line, Reason>::Fail(Reason::ReleaseTimeout),
    ensures
        occurrences(s.run(evs), |a: ProbeAction| a is Release) >= 1,
        s.mode is Hold ==> exists|i: int|
            0 <= i < evs.len() && evs[i] is Checked && evs[i]->present,
    decreases evs.len(),
{
    let (next, a) = s.transition(evs[0]);
    let rest = evs.drop_first();
    lemma_occurrences_cons(a, next.run(rest), |a: ProbeAction| a is Release);
    if a is Release {
        if s.mode is Hold {
            assert(evs[0] is Checked && evs[0]->present);
        }
    } else {
        if next.run(rest).len() == 0 {
            assert(s.run(evs) =~= seq![a]);
        } else {
            assert(s.run(evs).last() == next.run(rest).last());
            lemma_holder_releases(next, rest);
            if s.mode is Hold {
                let i = choose|i: int| 0 <= i < rest.len() && rest[i] is Checked && rest[i]->present;
                assert(evs[i + 1] == rest[i]);
            }
        }
    }
}

/// A probe tries the lock once, at its start, and releases it at most once,
/// whatever its driver answers.
pub proof fn lemma_probe_tries_once(mode: ProbeMode, evs: Seq<LockEvent>)
    ensures
        occurrences(probe_run(mode, evs), |a: ProbeAction| a is TryAcquire) == 0,
        occurrences(probe_run(mode, evs), |a: ProbeAction| a is Release) <= 1,
{
    lemma_probe_budget(Probe { mode, stage: Stage::Acquiring }, evs);
}

/// Once a probe has taken the lock, it stops only after releasing it, unless
/// it is a holder whose release file did not appear in time.
pub proof fn lemma_probe_releases_a_taken_lock(mode: ProbeMode, evs: Seq<LockEvent>)
    requires
        evs.len() > 0,
        evs[0] == LockEvent::Acquired(true),
        probe_run(mode, evs).len() > 0,
        stops(probe_run(mode, evs).last()),
        probe_run(mode, evs).last() != LockAction::<Line, Reason>::Fail(Reason::ReleaseTimeout),
    ensures
        occurrences(probe_run(mode, evs), |a: ProbeAction| a is Release) == 1,
{
    let s = Probe { mode, stage: Stage::Acquiring };
    let (next, a) = s.transition(evs[0]);
    let rest = evs.drop_first();
    lemma_probe_budget(s, evs);
    lemma_occurrences_cons(a, next.run(rest), |a: ProbeAction| a is Release);
    if !(mode is Contend) {
        if next.run(rest).len() == 0 {
            assert(s.run(evs) =~= seq![a]);
        } else {
            assert(s.run(evs).last() == next.run(rest).last());
            lemma_holder_releases(next, rest);
        }
    }
}

/// A probe succeeds exactly as its mode asks: `contend` only when its try
/// found the lock taken, and then without releasing anything; `acquire` and
/// `hold` only when their try took the lock, and only after releasing it;
/// `hold` besides only after its release file appeared.
pub proof fn lemma_probe_success_matches_mode(mode: ProbeMode, evs: Seq<LockEvent>)
    requires
        probe_run(mode, evs).len() > 0,
        probe_run(mode, evs).last() is Exit,
    ensures
        mode is Contend ==> evs[0] == LockEvent::Acquired(false) && occurrences(
            probe_run(mode, evs),
            |a: ProbeAction| a is Release,
        ) == 0,
        !(mode is Contend) ==> evs[0] == LockEvent::Acquired(true) && occurrences(
            probe_run(mode, evs),
            |a: ProbeAction| a is Release,
        ) == 1,
        mode is Hold ==> exists|i: int| 0 <= i < evs.len() && evs[i] is Checked && evs[i]->present,
{
    let s = Probe { mode, stage: Stage::Acquiring };
    let (next, a) = s.transition(evs[0]);
    let rest = evs.drop_first();
    lemma_probe_budget(s, evs);
    lemma_probe_budget(next, rest);
    lemma_occurrences_cons(a, next.run(rest), |a: ProbeAction| a is Release);
    if next.run(rest).len() == 0 {
        assert(s.run(evs) =~= seq![a]);
    } else {
        assert(s.run(evs).last() == next.run(rest).last());
    }
    if evs[0] == LockEvent::Acquired(true) {
        if mode is Contend {
            let rest2 = rest.drop_first();
            let (next2, a2) = next.transition(rest[0]);
            assert(next2.stage is Finished);
            assert(next2.run(rest2) =~= seq![]);
            assert(next.run(rest) =~= seq![a2]);
        } else {
            lemma_holder_releases(next, rest);
            if mode is Hold {
                let i = choose|i: int| 0 <= i < rest.len() && rest[i] is Checked && rest[i]->present;
                assert(evs[i + 1] == rest[i]);
            }
        }
    } else {
        assert(evs[0] == LockEvent::Acquired(false));
        if !(mode is Contend) {
            assert(next.stage is Finished);
            assert(next.run(rest) =~= seq![]);
        } else {
            assert(next.stage is Reporting);
            if rest.len() > 0 && next.awaits(rest[0]) {
                let (next2, a2) = next.transition(rest[0]);
                assert(next2.stage is Finished);
                assert(next2.run(rest.drop_first()) =~= seq![]);
                assert(next.run(rest) =~= seq![a2]);
                lemma_occurrences_cons(a2, next2.run(rest.drop_first()), |a: ProbeAction| a is Release);
            }
        }
    }
}


/// How a probe's command line is read. The mode is named by the first
/// argument after the program name, the lock's path is the second and the
/// owner the third, whatever the mode; a holder's release file is the fourth.
/// Missing arguments are reported in that order, before the mode is looked
/// at; a mode that is none of `hold`, `contend` and `acquire` is reported with
/// the argument that named it.
pub proof fn lemma_command_line_positions(args: Seq<String>)
    ensures
        args.len() <= 1 ==> command_of(args) == Err::<Command, Reason>(Reason::MissingMode),
        args.len() == 2 ==> command_of(args) == Err::<Command, Reason>(Reason::MissingPath),
        args.len() == 3 ==> command_of(args) == Err::<Command, Reason>(Reason::MissingOwner),
        command_of(args) is Ok ==> {
            let c = command_of(args)->Ok_0;
            &&& args.len() > 3
            &&& c.path == args[2]
            &&& c.owner == args[3]
            &&& (c.mode is Hold <==> args[1]@ == "hold"@)
            &&& (c.mode is Contend <==> args[1]@ == "contend"@)
            &&& (c.mode is Acquire <==> args[1]@ == "acquire"@)
            &&& (c.mode is Hold ==> args.len() > 4 && c.mode->release == args[4])
        },
        args.len() > 3 && (args[1]@ == "contend"@ || args[1]@ == "acquire"@ || (args[1]@
            == "hold"@ && args.len() > 4)) ==> command_of(args) is Ok,
        args.len() == 4 && args[1]@ == "hold"@ ==> command_of(args) == Err::<Command, Reason>(
            Reason::MissingReleaseSentinel,
        ),
        args.len() > 3 && args[1]@ != "hold"@ && args[1]@ != "contend"@ && args[1]@
            != "acquire"@ ==> command_of(args) == Err::<Command, Reason>(
            Reason::UnknownMode { mode: args[1] },
        ),
{
    lemma_mode_names_differ();
}

proof fn lemma_mode_names_differ()
    ensures
        "hold"@ != "contend"@,
        "hold"@ != "acquire"@,
        "contend"@ != "acquire"@,
{
    reveal_strlit("hold");
    reveal_strlit("contend");
    reveal_strlit("acquire");
    assert("hold"@.len() == 4);
    assert("contend"@.len() == 7);
    assert("acquire"@.len() == 7);
    assert("contend"@[0] == 'c');
    assert("acquire"@[0] == 'a');
}

/// A probe runs in the mode that its command line names.
pub proof fn lemma_probe_mode_follows_command(m: Mode)
    ensures
        kind_of(m) is Hold <==> m is Hold,
        kind_of(m) is Contend <==> m is Contend,
        kind_of(m) is Acquire <==> m is Acquire,
{
}

/// What each command line asks of the lock. A `contend` probe succeeds when
/// its try finds the lock taken and fails when the try takes it; an `acquire`
/// probe succeeds when its try takes the lock (after releasing it) and fails
/// when the lock is taken; a `hold` probe fails when the lock is taken. In
/// every mode success needs the answer that the mode expects.
pub proof fn lemma_command_line_expectations(args: Seq<String>, evs: Seq<LockEvent>)
    requires
        command_of(args) is Ok,
        evs.len() > 0,
    ensures
        ({
            let acts = probe_run(kind_of(command_of(args)->Ok_0.mode), evs);
            &&& args[1]@ == "contend"@ && evs[0] == LockEvent::Acquired(false) && evs.len() > 1
                && evs[1] == LockEvent::Done ==> acts =~= seq![
                LockAction::Print { line: Line::Contended, flush: false },
                LockAction::Exit,
            ]
            &&& args[1]@ == "contend"@ && evs[0] == LockEvent::Acquired(true) && evs.len() > 1
                && evs[1] == LockEvent::Done ==> acts =~= seq![
                LockAction::Release,
                LockAction::Fail(Reason::ContenderAcquired),
            ]
            &&& args[1]@ == "acquire"@ && evs[0] == LockEvent::Acquired(false) ==> acts
                =~= seq![LockAction::Fail(Reason::PostReleaseContended)]
            &&& args[1]@ == "acquire"@ && evs[0] == LockEvent::Acquired(true) && evs.len() > 2
                && evs[1] == LockEvent::Done && evs[2] == LockEvent::Done ==> acts =~= seq![
                LockAction::Print { line: Line::Acquired, flush: false },
                LockAction::Release,
                LockAction::Exit,
            ]
            &&& args[1]@ == "hold"@ && evs[0] == LockEvent::Acquired(false) ==> acts =~= seq![
                LockAction::Fail(Reason::HolderContended),
            ]
            &&& acts.len() > 0 && acts.last() is Exit ==> (evs[0] == LockEvent::Acquired(
                args[1]@ != "contend"@,
            ))
        }),
{
    lemma_command_line_positions(args);
    let m = kind_of(command_of(args)->Ok_0.mode);
    let s = Probe { mode: m, stage: Stage::Acquiring };
    let acts = probe_run(m, evs);
    if !s.awaits(evs[0]) {
        assert(acts =~= seq![]);
    } else {
        let (n1, a1) = s.transition(evs[0]);
        let r1 = evs.drop_first();
        assert(acts == seq![a1] + n1.run(r1));
        if r1.len() > 0 && n1.awaits(r1[0]) {
            let (n2, a2) = n1.transition(r1[0]);
            let r2 = r1.drop_first();
            assert(n1.run(r1) == seq![a2] + n2.run(r2));
            if r2.len() > 0 && n2.awaits(r2[0]) {
                let (n3, a3) = n2.transition(r2[0]);
                let r3 = r2.drop_first();
                assert(n2.run(r2) == seq![a3] + n3.run(r3));
                if n3.stage is Finished {
                    assert(n3.run(r3) =~= seq![]);
                }
            } else {
                assert(n2.run(r2) =~= seq![]);
            }
            if n2.stage is Finished {
                assert(n2.run(r2) =~= seq![]);
            }
        } else {
            assert(n1.run(r1) =~= seq![]);
        }
        if n1.stage is Finished {
            assert(n1.run(r1) =~= seq![]);
        }
    }
    if acts.len() > 0 && acts.last() is Exit {
        lemma_probe_success_matches_mode(m, evs);
    }
}

} // verus!
