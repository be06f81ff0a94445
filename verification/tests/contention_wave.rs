use concurrent_install_locking::process_canary::contender_args;
use concurrent_install_locking::process_canary::place_components;
use concurrent_install_locking::process_canary::Place;
use concurrent_install_locking::attempt::Contender;
use concurrent_install_locking::attempt::BARRIER_POLL_MILLIS;
use concurrent_install_locking::attempt::BARRIER_TIMEOUT_SECS;
use concurrent_install_locking::attempt::HOLD_MILLIS;
use concurrent_install_locking::process_canary::explain;
use concurrent_install_locking::process_canary::failure;
use concurrent_install_locking::process_canary::line_text;
use concurrent_install_locking::process_canary::owner_label;
use concurrent_install_locking::process_canary::parse_invocation;
use concurrent_install_locking::process_canary::round_root_name;
use concurrent_install_locking::process_canary::sentinel_bytes;
use concurrent_install_locking::process_canary::sentinel_intact;
use concurrent_install_locking::process_canary::Invocation;
use concurrent_install_locking::process_canary::Line;
use concurrent_install_locking::process_canary::Reason;
use concurrent_install_locking::protocol::LockAction;
use concurrent_install_locking::protocol::LockEvent;

fn args(items: &[&str]) -> Vec<String> {
    items.iter().map(|s| s.to_string()).collect()
}

#[test]
fn failure_keeps_the_message() {
    assert_eq!(failure("boom".to_string()).message, "boom");
}

#[test]
fn invocation_without_arguments_coordinates() {
    assert_eq!(parse_invocation(&args(&["canary"])), Ok(Invocation::Coordinate));
    assert_eq!(parse_invocation(&args(&["canary", "other", "x"])), Ok(Invocation::Coordinate));
    assert_eq!(parse_invocation(&args(&[])), Ok(Invocation::Coordinate));
}

#[test]
fn invocation_attempt_takes_three_arguments() {
    assert_eq!(
        parse_invocation(&args(&["canary", "attempt", "/l", "/b", "process-0-3"])),
        Ok(Invocation::Attempt {
            lock_path: "/l".to_string(),
            barrier: "/b".to_string(),
            owner: "process-0-3".to_string(),
        })
    );
    assert_eq!(parse_invocation(&args(&["canary", "attempt"])), Err(Reason::MissingLockPath));
    assert_eq!(parse_invocation(&args(&["canary", "attempt", "/l"])), Err(Reason::MissingBarrierPath));
    assert_eq!(parse_invocation(&args(&["canary", "attempt", "/l", "/b"])), Err(Reason::MissingOwner));
}

#[test]
fn failure_messages_read_as_the_canary_reports_them() {
    assert_eq!(explain(Reason::BarrierTimeout).message, "timed out waiting for process start barrier");
    assert_eq!(
        explain(Reason::DirtyHome).message,
        "clean-home precondition unexpectedly contained .zpkg lock state"
    );
    assert_eq!(
        explain(Reason::ChildFailed { status: "exit status: 3".to_string(), stderr: "oops".to_string() })
            .message,
        "child failed: status=exit status: 3 stderr=oops"
    );
    assert_eq!(
        explain(Reason::UnreadableChildOutput { detail: "invalid utf-8".to_string() }).message,
        "invalid utf-8"
    );
    assert_eq!(
        explain(Reason::UnexpectedChildResult { output: "  maybe \"so\"\n".to_string() }).message,
        "unexpected child result: \"maybe \\\"so\\\"\""
    );
    assert_eq!(
        explain(Reason::WaveMismatch { winners: 2, contended: 10 }).message,
        "expected one process winner and eleven contenders; winners=2 contended=10"
    );
    assert_eq!(explain(Reason::LockLeftBehind).message, "winner released but lock still exists");
    assert_eq!(
        explain(Reason::ParentsRemoved).message,
        "local lock release removed caller-owned .zpkg parent directories"
    );
    assert_eq!(
        explain(Reason::HomeStateModified).message,
        "local lock activity modified unrelated HOME state"
    );
    assert_eq!(explain(Reason::MissingLockPath).message, "missing lock path");
    assert_eq!(explain(Reason::MissingBarrierPath).message, "missing barrier path");
    assert_eq!(explain(Reason::MissingOwner).message, "missing owner");
}

#[test]
fn printed_lines() {
    assert_eq!(line_text(Line::Win), "WIN");
    assert_eq!(line_text(Line::Contended), "CONTENDED");
    assert_eq!(
        line_text(Line::Summary),
        "5 rounds passed: exactly one winner per 12-process $HOME/.zpkg-style contention wave"
    );
}

#[test]
fn names_of_owners_and_scratch_directories() {
    assert_eq!(owner_label(0, 0), "process-0-0");
    assert_eq!(owner_label(3, 11), "process-3-11");
    assert_eq!(
        round_root_name(4242, 1_700_000_000_123_456_789, 2),
        "ores-local-lock-process-canary-4242-1700000000123456789-2"
    );
}

#[test]
fn sentinel_content_is_preserve_me() {
    assert_eq!(sentinel_bytes(), b"preserve-me".to_vec());
    assert!(sentinel_intact(&b"preserve-me".to_vec()));
    assert!(!sentinel_intact(&b"preserve-me\n".to_vec()));
    assert!(!sentinel_intact(&b"preserve-mE".to_vec()));
    assert!(!sentinel_intact(&Vec::new()));
}

fn drive(events: &[LockEvent]) -> Vec<LockAction<Line, Reason>> {
    let (mut state, first) = Contender::start();
    let mut actions = vec![first];
    for event in events {
        assert!(state.accepts(event));
        let (next, action) = state.step(*event);
        state = next;
        actions.push(action);
    }
    actions
}

#[test]
fn winner_announces_holds_and_releases() {
    let actions = drive(&[
        LockEvent::Done,
        LockEvent::Checked { present: false, expired: false },
        LockEvent::Done,
        LockEvent::Checked { present: true, expired: false },
        LockEvent::Acquired(true),
        LockEvent::Done,
        LockEvent::Done,
        LockEvent::Done,
    ]);
    assert_eq!(
        actions,
        vec![
            LockAction::ArmDeadline { seconds: BARRIER_TIMEOUT_SECS },
            LockAction::CheckFile,
            LockAction::Sleep { millis: BARRIER_POLL_MILLIS },
            LockAction::CheckFile,
            LockAction::TryAcquire,
            LockAction::Print { line: Line::Win, flush: false },
            LockAction::Sleep { millis: HOLD_MILLIS },
            LockAction::Release,
            LockAction::Exit,
        ]
    );
    assert_eq!(BARRIER_TIMEOUT_SECS, 15);
    assert_eq!(BARRIER_POLL_MILLIS, 2);
    assert_eq!(HOLD_MILLIS, 2000);
}

#[test]
fn loser_announces_contention_and_exits_without_release() {
    let actions = drive(&[
        LockEvent::Done,
        LockEvent::Checked { present: true, expired: true },
        LockEvent::Acquired(false),
        LockEvent::Done,
    ]);
    assert_eq!(
        actions,
        vec![
            LockAction::ArmDeadline { seconds: 15 },
            LockAction::CheckFile,
            LockAction::TryAcquire,
            LockAction::Print { line: Line::Contended, flush: false },
            LockAction::Exit,
        ]
    );
}

#[test]
fn missing_barrier_times_out() {
    let actions = drive(&[LockEvent::Done, LockEvent::Checked { present: false, expired: true }]);
    assert_eq!(actions.last(), Some(&LockAction::Fail(Reason::BarrierTimeout)));
    let (finished, _) = Contender::Watching.step(LockEvent::Checked { present: false, expired: true });
    assert!(!finished.accepts(&LockEvent::Done));
}

#[test]
fn contender_refuses_answers_it_does_not_await() {
    assert!(!Contender::Watching.accepts(&LockEvent::Done));
    assert!(!Contender::Acquiring.accepts(&LockEvent::Checked { present: true, expired: false }));
    assert!(Contender::Acquiring.accepts(&LockEvent::Acquired(true)));
}

#[test]
fn contender_arguments_read_back_as_that_contenders_attempt() {
    let args = contender_args("/tmp/r/home/.zpkg/locks/install.lock".to_string(), "/tmp/r/start".to_string(), 2, 7);
    assert_eq!(args, vec!["attempt", "/tmp/r/home/.zpkg/locks/install.lock", "/tmp/r/start", "process-2-7"]);
    let mut command_line = vec!["canary".to_string()];
    command_line.extend(args);
    assert_eq!(
        parse_invocation(&command_line),
        Ok(Invocation::Attempt {
            lock_path: "/tmp/r/home/.zpkg/locks/install.lock".to_string(),
            barrier: "/tmp/r/start".to_string(),
            owner: "process-2-7".to_string(),
        })
    );
}

#[test]
fn round_layout_places() {
    assert_eq!(place_components(Place::Home), vec!["home"]);
    assert_eq!(place_components(Place::ZpkgRoot), vec!["home", ".zpkg"]);
    assert_eq!(place_components(Place::LocksRoot), vec!["home", ".zpkg", "locks"]);
    assert_eq!(place_components(Place::LockFile), vec!["home", ".zpkg", "locks", "install.lock"]);
    assert_eq!(place_components(Place::Barrier), vec!["start"]);
    assert_eq!(place_components(Place::Sentinel), vec!["home", "caller-owned.txt"]);
}

#[test]
fn owner_labels_of_a_round_are_distinct() {
    let labels: Vec<String> = (0..12).map(|i| owner_label(4, i)).collect();
    for i in 0..labels.len() {
        for j in 0..labels.len() {
            assert_eq!(i == j, labels[i] == labels[j]);
        }
    }
    assert_ne!(owner_label(1, 12), owner_label(11, 2));
}
