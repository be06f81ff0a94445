//! The contention-wave canary: its command line, its failures and the lines it
//! prints.
//!
//! The program runs in two roles. Without arguments it coordinates rounds of
//! contention (see `coordinator`); with `attempt <lock> <barrier> <owner>` it
//! is one of the contending processes (see `attempt`).
use vstd::prelude::*;
use vstd::string::StringExecFns;
use crate::error::CanaryError;
use crate::text::decimal;
use crate::text::digit_char;
use crate::text::decimal_text;
use crate::text::debug_text;
use crate::text::debug_quoted;
use crate::text::trimmed;
use crate::text::trim;

verus! {

/// Contending processes per round.
pub const PROCESSES_PER_WAVE: usize = 12;

/// Rounds that one run of the canary performs.
pub const ROUNDS: usize = 5;

/// Wraps a message as the canary's failure.
pub fn failure(message: String) -> (e: CanaryError)
    ensures
        e.message == message,
{
    CanaryError { message }
}

/// Why the contention-wave canary fails.
#[derive(Debug, PartialEq, Eq)]
pub enum Reason {
    /// A contender waited too long for the start barrier.
    BarrierTimeout,
    /// The fresh home already held lock state before the round started.
    DirtyHome,
    /// A contender exited unsuccessfully; its exit status and its standard
    /// error, as text.
    ChildFailed { status: String, stderr: String },
    /// A contender's standard output was not UTF-8; the decoder's account.
    UnreadableChildOutput { detail: String },
    /// A contender printed neither verdict; its whole standard output.
    UnexpectedChildResult { output: String },
    /// A wave did not end with one winner and eleven contenders.
    WaveMismatch { winners: usize, contended: usize },
    /// The lock rendezvous still existed after the winner released it.
    LockLeftBehind,
    /// The caller-owned parent directories of the rendezvous were gone.
    ParentsRemoved,
    /// The unrelated file in the home no longer held what was written.
    HomeStateModified,
    MissingLockPath,
    MissingBarrierPath,
    MissingOwner,
}

/// The message that goes with each failure.
pub open spec fn reason_text(r: Reason) -> Seq<char> {
    match r {
        Reason::BarrierTimeout => "timed out waiting for process start barrier"@,
        Reason::DirtyHome => "clean-home precondition unexpectedly contained .zpkg lock state"@,
        Reason::ChildFailed { status, stderr } => "child failed: status="@ + status@
            + " stderr="@ + stderr@,
        Reason::UnreadableChildOutput { detail } => detail@,
        Reason::UnexpectedChildResult { output } => "unexpected child result: "@ + debug_text(
            trimmed(output@),
        ),
        Reason::WaveMismatch { winners, contended } =>
            "expected one process winner and eleven contenders; winners="@ + decimal(
            winners as nat,
        ) + " contended="@ + decimal(contended as nat),
        Reason::LockLeftBehind => "winner released but lock still exists"@,
        Reason::ParentsRemoved => "local lock release removed caller-owned .zpkg parent directories"@,
        Reason::HomeStateModified => "local lock activity modified unrelated HOME state"@,
        Reason::MissingLockPath => "missing lock path"@,
        Reason::MissingBarrierPath => "missing barrier path"@,
        Reason::MissingOwner => "missing owner"@,
    }
}

/// The failure, with its message, that the canary reports for `r`.
pub fn explain(r: Reason) -> (e: CanaryError)
    ensures
        e.message@ == reason_text(r),
{
    let message = match r {
        Reason::BarrierTimeout => String::from_str("timed out waiting for process start barrier"),
        Reason::DirtyHome => String::from_str(
            "clean-home precondition unexpectedly contained .zpkg lock state",
        ),
        Reason::ChildFailed { status, stderr } => {
            let mut m = String::from_str("child failed: status=");
            m.append(status.as_str());
            m.append(" stderr=");
            m.append(stderr.as_str());
            m
        },
        Reason::UnreadableChildOutput { detail } => detail,
        Reason::UnexpectedChildResult { output } => {
            let mut m = String::from_str("unexpected child result: ");
            let t = trim(output.as_str());
            let q = debug_quoted(t.as_str());
            m.append(q.as_str());
            m
        },
        Reason::WaveMismatch { winners, contended } => {
            let mut m = String::from_str(
                "expected one process winner and eleven contenders; winners=",
            );
            let w = decimal_text(winners as u128);
            m.append(w.as_str());
            m.append(" contended=");
            let c = decimal_text(contended as u128);
            m.append(c.as_str());
            m
        },
        Reason::LockLeftBehind => String::from_str("winner released but lock still exists"),
        Reason::ParentsRemoved => String::from_str(
            "local lock release removed caller-owned .zpkg parent directories",
        ),
        Reason::HomeStateModified => String::from_str(
            "local lock activity modified unrelated HOME state",
        ),
        Reason::MissingLockPath => String::from_str("missing lock path"),
        Reason::MissingBarrierPath => String::from_str("missing barrier path"),
        Reason::MissingOwner => String::from_str("missing owner"),
    };
    failure(message)
}

/// The lines that the canary prints.
#[derive(Clone, Copy, Debug, PartialEq, Eq)]
pub enum Line {
    /// A contender took the lock.
    Win,
    /// A contender found the lock taken.
    Contended,
    /// Every round passed.
    Summary,
}

pub open spec fn line_spec(l: Line) -> Seq<char> {
    match l {
        Line::Win => "WIN"@,
        Line::Contended => "CONTENDED"@,
        Line::Summary =>
            "5 rounds passed: exactly one winner per 12-process $HOME/.zpkg-style contention wave"@,
    }
}

/// The text of a printed line.
pub fn line_text(l: Line) -> (s: String)
    ensures
        s@ == line_spec(l),
{
    match l {
        Line::Win => String::from_str("WIN"),
        Line::Contended => String::from_str("CONTENDED"),
        Line::Summary => String::from_str(
            "5 rounds passed: exactly one winner per 12-process $HOME/.zpkg-style contention wave",
        ),
    }
}

/// The owner name that contender `index` of round `round` takes the lock as.
pub open spec fn owner_label_spec(round: nat, index: nat) -> Seq<char> {
    "process-"@ + decimal(round) + "-"@ + decimal(index)
}

pub fn owner_label(round: usize, index: usize) -> (s: String)
    ensures
        s@ == owner_label_spec(round as nat, index as nat),
{
    let mut s = String::from_str("process-");
    let r = decimal_text(round as u128);
    s.append(r.as_str());
    s.append("-");
    let i = decimal_text(index as u128);
    s.append(i.as_str());
    s
}

/// The name of the scratch directory of a round, under the system's temporary
/// directory: unique by process id, clock reading and round.
pub open spec fn round_root_name_spec(pid: nat, nonce: nat, round: nat) -> Seq<char> {
    "ores-local-lock-process-canary-"@ + decimal(pid) + "-"@ + decimal(nonce) + "-"@ + decimal(
        round,
    )
}

pub fn round_root_name(pid: u32, nonce: u128, round: usize) -> (s: String)
    ensures
        s@ == round_root_name_spec(pid as nat, nonce as nat, round as nat),
{
    let mut s = String::from_str("ores-local-lock-process-canary-");
    let p = decimal_text(pid as u128);
    s.append(p.as_str());
    s.append("-");
    let n = decimal_text(nonce);
    s.append(n.as_str());
    s.append("-");
    let r = decimal_text(round as u128);
    s.append(r.as_str());
    s
}

/// The bytes of the caller-owned file that lock activity must leave alone:
/// `preserve-me`.
pub open spec fn sentinel_content() -> Seq<u8> {
    seq![112u8, 114, 101, 115, 101, 114, 118, 101, 45, 109, 101]
}

/// The bytes to write into the caller-owned file.
pub fn sentinel_bytes() -> (v: Vec<u8>)
    ensures
        v@ == sentinel_content(),
{
    let v: Vec<u8> = vec![112u8, 114, 101, 115, 101, 114, 118, 101, 45, 109, 101];
    assert(v@ =~= sentinel_content());
    v
}

/// Whether the caller-owned file still holds what was written into it.
pub fn sentinel_intact(bytes: &Vec<u8>) -> (b: bool)
    ensures
        b == (bytes@ == sentinel_content()),
{
    let expected = sentinel_bytes();
    if bytes.len() != expected.len() {
        return false;
    }
    let mut i: usize = 0;
    while i < bytes.len()
        invariant
            bytes.len() == expected.len(),
            expected@ == sentinel_content(),
            i <= bytes.len(),
            forall|k: int| 0 <= k < i ==> bytes@[k] == expected@[k],
        decreases bytes.len() - i,
    {
        if bytes[i] != expected[i] {
            return false;
        }
        i = i + 1;
    }
    assert(bytes@ =~= expected@);
    true
}

/// The role that a command line selects.
#[derive(Debug, PartialEq, Eq)]
pub enum Invocation {
    /// Contend once for the lock at `lock_path`, after the file `barrier`
    /// appears, as `owner`.
    Attempt { lock_path: String, barrier: String, owner: String },
    /// Coordinate the rounds.
    Coordinate,
}

/// The role that the arguments `args` (program name first) select.
pub open spec fn invocation_of(args: Seq<String>) -> Result<Invocation, Reason> {
    if args.len() > 1 && args[1]@ == "attempt"@ {
        if args.len() <= 2 {
            Err(Reason::MissingLockPath)
        } else if args.len() <= 3 {
            Err(Reason::MissingBarrierPath)
        } else if args.len() <= 4 {
            Err(Reason::MissingOwner)
        } else {
            Ok(Invocation::Attempt { lock_path: args[2], barrier: args[3], owner: args[4] })
        }
    } else {
        Ok(Invocation::Coordinate)
    }
}

/// Reads the command line.
pub fn parse_invocation(args: &Vec<String>) -> (r: Result<Invocation, Reason>)
    ensures
        r == invocation_of(args@),
        r matches Ok(Invocation::Attempt { lock_path, barrier, owner }) ==> args.len() > 4
            && args@[1]@ == "attempt"@ && lock_path == args@[2] && barrier == args@[3] && owner
            == args@[4],
{
    let attempt = String::from_str("attempt");
    if args.len() > 1 && args[1] == attempt {
        if args.len() <= 2 {
            Err(Reason::MissingLockPath)
        } else if args.len() <= 3 {
            Err(Reason::MissingBarrierPath)
        } else if args.len() <= 4 {
            Err(Reason::MissingOwner)
        } else {
            Ok(
                Invocation::Attempt {
                    lock_path: args[2].clone(),
                    barrier: args[3].clone(),
                    owner: args[4].clone(),
                },
            )
        }
    } else {
        Ok(Invocation::Coordinate)
    }
}


/// How the canary's command line is read: the first argument after the
/// program name selects the contender's role when it is `attempt`, and then the
/// rendezvous, the barrier and the owner name follow in that order, each
/// missing one reported in that order; any other command line coordinates.
pub proof fn lemma_invocation_positions(args: Seq<String>)
    ensures
        !(args.len() > 1 && args[1]@ == "attempt"@) ==> invocation_of(args) == Ok::<
            Invocation,
            Reason,
        >(Invocation::Coordinate),
        args.len() > 1 && args[1]@ == "attempt"@ ==> {
            &&& args.len() == 2 ==> invocation_of(args) == Err::<Invocation, Reason>(
                Reason::MissingLockPath,
            )
            &&& args.len() == 3 ==> invocation_of(args) == Err::<Invocation, Reason>(
                Reason::MissingBarrierPath,
            )
            &&& args.len() == 4 ==> invocation_of(args) == Err::<Invocation, Reason>(
                Reason::MissingOwner,
            )
            &&& args.len() > 4 ==> invocation_of(args) is Ok && invocation_of(args)->Ok_0 is Attempt
        },
        invocation_of(args) matches Ok(Invocation::Attempt { lock_path, barrier, owner })
            ==> args.len() > 4 && args[1]@ == "attempt"@ && lock_path == args[2] && barrier
            == args[3] && owner == args[4],
{
}

/// The places of a round's layout, below the round's scratch directory.
#[derive(Clone, Copy, Debug, PartialEq, Eq)]
pub enum Place {
    /// The caller's home.
    Home,
    /// The `.zpkg` directory in the home, which the lock backend has to create.
    ZpkgRoot,
    /// The `locks` directory below it.
    LocksRoot,
    /// The lock rendezvous that every contender of the round tries.
    LockFile,
    /// The file whose appearance lets the contenders go.
    Barrier,
    /// The caller-owned file in the home that lock activity must leave alone.
    Sentinel,
}

/// The path components of `p`, below the round's scratch directory:
/// `home/.zpkg/locks/install.lock` for the rendezvous, `start` for the barrier,
/// `home/caller-owned.txt` for the caller-owned file.
pub open spec fn place_spec(p: Place) -> Seq<Seq<char>> {
    match p {
        Place::Home => seq!["home"@],
        Place::ZpkgRoot => seq!["home"@, ".zpkg"@],
        Place::LocksRoot => seq!["home"@, ".zpkg"@, "locks"@],
        Place::LockFile => seq!["home"@, ".zpkg"@, "locks"@, "install.lock"@],
        Place::Barrier => seq!["start"@],
        Place::Sentinel => seq!["home"@, "caller-owned.txt"@],
    }
}

/// The path components of a place of the round's layout, to be joined, in
/// order, onto the round's scratch directory.
pub fn place_components(p: Place) -> (v: Vec<String>)
    ensures
        v@.map_values(|c: String| c@) == place_spec(p),
{
    let mut v: Vec<String> = Vec::new();
    match p {
        Place::Barrier => {
            v.push(String::from_str("start"));
        },
        _ => {
            v.push(String::from_str("home"));
            match p {
                Place::Sentinel => {
                    v.push(String::from_str("caller-owned.txt"));
                },
                Place::Home => {},
                _ => {
                    v.push(String::from_str(".zpkg"));
                    match p {
                        Place::ZpkgRoot => {},
                        _ => {
                            v.push(String::from_str("locks"));
                            if matches!(p, Place::LockFile) {
                                v.push(String::from_str("install.lock"));
                            }
                        },
                    }
                },
            }
        },
    }
    assert(v@.map_values(|c: String| c@) =~= place_spec(p));
    v
}

/// The arguments, after the program name, with which the coordinator starts
/// contender `index` of round `round`: `attempt`, the rendezvous, the barrier
/// and the owner name. Whatever the program name, `parse_invocation` reads
/// them back as that contender's `Attempt`.
pub fn contender_args(lock_path: String, barrier: String, round: usize, index: usize) -> (v: Vec<
    String,
>)
    ensures
        v.len() == 4,
        v@[0]@ == "attempt"@,
        v@[1] == lock_path,
        v@[2] == barrier,
        v@[3]@ == owner_label_spec(round as nat, index as nat),
        forall|program: String|
            #![trigger seq![program] + v@]
            invocation_of(seq![program] + v@) == Ok::<Invocation, Reason>(
                Invocation::Attempt { lock_path, barrier, owner: v@[3] },
            ),
{
    let mut v: Vec<String> = Vec::new();
    v.push(String::from_str("attempt"));
    v.push(lock_path);
    v.push(barrier);
    v.push(owner_label(round, index));
    assert forall|program: String| #![trigger seq![program] + v@]
        invocation_of(seq![program] + v@) == Ok::<Invocation, Reason>(
            Invocation::Attempt { lock_path, barrier, owner: v@[3] },
        ) by {
        let args = seq![program] + v@;
        assert(args[1] == v@[0]);
        assert(args[2] == v@[1]);
        assert(args[3] == v@[2]);
        assert(args[4] == v@[3]);
    }
    v
}

/// `decimal(n)` has at least one digit, and exactly one when `n < 10`.
proof fn lemma_decimal_len(n: nat)
    ensures
        decimal(n).len() >= 1,
        decimal(n).len() == 1 <==> n < 10,
    decreases n,
{
    if n >= 10 {
        lemma_decimal_len(n / 10);
    }
}

/// Different numbers have different decimal renderings.
proof fn lemma_decimal_injective(n: nat, m: nat)
    requires
        decimal(n) == decimal(m),
    ensures
        n == m,
    decreases n,
{
    lemma_decimal_len(n);
    lemma_decimal_len(m);
    if n >= 10 && m >= 10 {
        assert(decimal(n).drop_last() =~= decimal(n / 10));
        assert(decimal(m).drop_last() =~= decimal(m / 10));
        lemma_decimal_injective(n / 10, m / 10);
        assert(decimal(n).last() == digit_char((n % 10) as nat));
        assert(decimal(m).last() == digit_char((m % 10) as nat));
        lemma_digit_char_injective((n % 10) as nat, (m % 10) as nat);
    } else {
        assert(decimal(n).len() == decimal(m).len());
        assert(n < 10 && m < 10);
        assert(decimal(n)[0] == digit_char(n));
        assert(decimal(m)[0] == digit_char(m));
        lemma_digit_char_injective(n, m);
    }
}

proof fn lemma_digit_char_injective(a: nat, b: nat)
    requires
        a < 10,
        b < 10,
        digit_char(a) == digit_char(b),
    ensures
        a == b,
{
}

/// The contenders of one round take the lock under pairwise different owner
/// names.
pub proof fn lemma_owner_labels_distinct(round: nat, i: nat, j: nat)
    requires
        i != j,
    ensures
        owner_label_spec(round, i) != owner_label_spec(round, j),
{
    let p = "process-"@ + decimal(round) + "-"@;
    assert(owner_label_spec(round, i) =~= p + decimal(i));
    assert(owner_label_spec(round, j) =~= p + decimal(j));
    if owner_label_spec(round, i) == owner_label_spec(round, j) {
        assert((p + decimal(i)).subrange(p.len() as int, (p + decimal(i)).len() as int)
            =~= decimal(i));
        assert((p + decimal(j)).subrange(p.len() as int, (p + decimal(j)).len() as int)
            =~= decimal(j));
        lemma_decimal_injective(i, j);
    }
}

} // verus!
