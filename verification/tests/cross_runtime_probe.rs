use concurrent_install_locking::cross_runtime::explain;
use concurrent_install_locking::cross_runtime::failure;
use concurrent_install_locking::cross_runtime::line_text;
use concurrent_install_locking::cross_runtime::mode_kind;
use concurrent_install_locking::cross_runtime::parse_command;
use concurrent_install_locking::cross_runtime::Command;
use concurrent_install_locking::cross_runtime::Line;
use concurrent_install_locking::cross_runtime::Mode;
use concurrent_install_locking::cross_runtime::Probe;
use concurrent_install_locking::cross_runtime::ProbeMode;
use concurrent_install_locking::cross_runtime::Reason;
use concurrent_install_locking::cross_runtime::RELEASE_POLL_MILLIS;
use concurrent_install_locking::cross_runtime::RELEASE_TIMEOUT_SECS;
use concurrent_install_locking::protocol::LockAction;
use concurrent_install_locking::protocol::LockEvent;

fn args(items: &[&str]) -> Vec<String> {
    items.iter().map(|s| s.to_string()).collect()
}

fn drive(mode: ProbeMode, events: &[LockEvent]) -> Vec<LockAction<Line, Reason>> {
    let (mut state, first) = Probe::start(mode);
    let mut actions = vec![first];
    for event in events {
        assert!(state.accepts(event));
        let (next, action) = state.step(*event);
        state = next;
        actions.push(action);
    }
    actions
}

#[test]
fn probe_failure_keeps_the_message() {
    assert_eq!(failure("boom".to_string()).message, "boom");
}

#[test]
fn command_line_is_checked_in_order() {
    assert_eq!(parse_command(&args(&["probe"])), Err(Reason::MissingMode));
    assert_eq!(parse_command(&args(&["probe", "hold"])), Err(Reason::MissingPath));
    assert_eq!(parse_command(&args(&["probe", "bogus", "/l"])), Err(Reason::MissingOwner));
    assert_eq!(
        parse_command(&args(&["probe", "bogus", "/l", "me"])),
        Err(Reason::UnknownMode { mode: "bogus".to_string() })
    );
    assert_eq!(
        parse_command(&args(&["probe", "hold", "/l", "me"])),
        Err(Reason::MissingReleaseSentinel)
    );
    assert_eq!(
        parse_command(&args(&["probe", "hold", "/l", "me", "/r"])),
        Ok(Command {
            mode: Mode::Hold { release: "/r".to_string() },
            path: "/l".to_string(),
            owner: "me".to_string()
        })
    );
    assert_eq!(
        parse_command(&args(&["probe", "contend", "/l", "me", "extra"])),
        Ok(Command { mode: Mode::Contend, path: "/l".to_string(), owner: "me".to_string() })
    );
    let acquire = parse_command(&args(&["probe", "acquire", "/l", "me"])).unwrap();
    assert_eq!(mode_kind(&acquire.mode), ProbeMode::Acquire);
}

#[test]
fn probe_failure_messages() {
    assert_eq!(explain(Reason::MissingMode).message, "missing mode");
    assert_eq!(explain(Reason::MissingPath).message, "missing path");
    assert_eq!(explain(Reason::MissingOwner).message, "missing owner");
    assert_eq!(explain(Reason::MissingReleaseSentinel).message, "missing release sentinel");
    assert_eq!(
        explain(Reason::UnknownMode { mode: "grab\tit".to_string() }).message,
        "unknown mode \"grab\\tit\""
    );
    assert_eq!(explain(Reason::HolderContended).message, "holder unexpectedly contended");
    assert_eq!(explain(Reason::ReleaseTimeout).message, "timed out waiting for release sentinel");
    assert_eq!(
        explain(Reason::ContenderAcquired).message,
        "contender unexpectedly acquired live cross-runtime lock"
    );
    assert_eq!(
        explain(Reason::PostReleaseContended).message,
        "post-release acquire unexpectedly contended"
    );
}

#[test]
fn probe_lines() {
    assert_eq!(line_text(Line::Held), "HELD");
    assert_eq!(line_text(Line::Released), "RELEASED");
    assert_eq!(line_text(Line::Contended), "CONTENDED");
    assert_eq!(line_text(Line::Acquired), "ACQUIRED");
}

#[test]
fn holder_keeps_the_lock_until_its_release_file_appears() {
    let actions = drive(
        ProbeMode::Hold,
        &[
            LockEvent::Acquired(true),
            LockEvent::Done,
            LockEvent::Done,
            LockEvent::Checked { present: false, expired: false },
            LockEvent::Done,
            LockEvent::Checked { present: true, expired: false },
            LockEvent::Done,
            LockEvent::Done,
        ],
    );
    assert_eq!(
        actions,
        vec![
            LockAction::TryAcquire,
            LockAction::Print { line: Line::Held, flush: true },
            LockAction::ArmDeadline { seconds: RELEASE_TIMEOUT_SECS },
            LockAction::CheckFile,
            LockAction::Sleep { millis: RELEASE_POLL_MILLIS },
            LockAction::CheckFile,
            LockAction::Release,
            LockAction::Print { line: Line::Released, flush: false },
            LockAction::Exit,
        ]
    );
    assert_eq!(RELEASE_TIMEOUT_SECS, 20);
    assert_eq!(RELEASE_POLL_MILLIS, 5);
}

#[test]
fn holder_fails_when_contended_or_never_released() {
    let actions = drive(ProbeMode::Hold, &[LockEvent::Acquired(false)]);
    assert_eq!(actions.last(), Some(&LockAction::Fail(Reason::HolderContended)));
    let actions = drive(
        ProbeMode::Hold,
        &[
            LockEvent::Acquired(true),
            LockEvent::Done,
            LockEvent::Done,
            LockEvent::Checked { present: false, expired: true },
        ],
    );
    assert_eq!(actions.last(), Some(&LockAction::Fail(Reason::ReleaseTimeout)));
    assert!(!actions.contains(&LockAction::Release));
}

#[test]
fn contender_expects_the_lock_taken() {
    let actions = drive(ProbeMode::Contend, &[LockEvent::Acquired(false), LockEvent::Done]);
    assert_eq!(
        actions,
        vec![
            LockAction::TryAcquire,
            LockAction::Print { line: Line::Contended, flush: false },
            LockAction::Exit,
        ]
    );
    let actions = drive(ProbeMode::Contend, &[LockEvent::Acquired(true), LockEvent::Done]);
    assert_eq!(
        actions,
        vec![LockAction::TryAcquire, LockAction::Release, LockAction::Fail(Reason::ContenderAcquired)]
    );
}

#[test]
fn acquirer_expects_the_lock_free() {
    let actions = drive(ProbeMode::Acquire, &[LockEvent::Acquired(true), LockEvent::Done, LockEvent::Done]);
    assert_eq!(
        actions,
        vec![
            LockAction::TryAcquire,
            LockAction::Print { line: Line::Acquired, flush: false },
            LockAction::Release,
            LockAction::Exit,
        ]
    );
    let actions = drive(ProbeMode::Acquire, &[LockEvent::Acquired(false)]);
    assert_eq!(actions.last(), Some(&LockAction::Fail(Reason::PostReleaseContended)));
}
