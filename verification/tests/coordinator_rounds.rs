use concurrent_install_locking::coordinator::classify;
use concurrent_install_locking::coordinator::ChildReport;
use concurrent_install_locking::coordinator::Coordinator;
use concurrent_install_locking::coordinator::Outcome;
use concurrent_install_locking::coordinator::Phase;
use concurrent_install_locking::coordinator::RoundAction;
use concurrent_install_locking::coordinator::RoundEvent;
use concurrent_install_locking::coordinator::SETTLE_MILLIS;
use concurrent_install_locking::process_canary::Line;
use concurrent_install_locking::process_canary::Reason;
use concurrent_install_locking::process_canary::PROCESSES_PER_WAVE;
use concurrent_install_locking::process_canary::ROUNDS;

fn report(stdout: &str) -> ChildReport {
    ChildReport {
        succeeded: true,
        status: "exit status: 0".to_string(),
        stderr: String::new(),
        stdout: Ok(stdout.to_string()),
    }
}

fn clean_home() -> RoundEvent {
    RoundEvent::HomePrepared { zpkg_root_exists: false, locks_root_exists: false, lock_exists: false }
}

struct Driver {
    state: Coordinator,
    actions: Vec<RoundAction>,
}

impl Driver {
    fn new() -> Self {
        let (state, first) = Coordinator::start();
        Driver { state, actions: vec![first] }
    }

    fn feed(&mut self, event: RoundEvent) -> &RoundAction {
        assert!(self.state.accepts(&event), "{:?} does not await {:?}", self.state, event);
        let (next, action) = self.state.step(event);
        self.state = next;
        self.actions.push(action);
        self.actions.last().unwrap()
    }

    fn through_collection(&mut self) {
        self.feed(clean_home());
        for _ in 0..PROCESSES_PER_WAVE {
            self.feed(RoundEvent::Done);
        }
        self.feed(RoundEvent::Done);
    }

    fn wave(&mut self, outputs: &[&str]) -> &RoundAction {
        self.through_collection();
        self.feed(RoundEvent::Done);
        for output in outputs {
            self.feed(RoundEvent::ChildExited(report(output)));
        }
        self.actions.last().unwrap()
    }
}

fn one_winner_wave(winner: usize) -> Vec<&'static str> {
    (0..PROCESSES_PER_WAVE).map(|i| if i == winner { "WIN\n" } else { "CONTENDED\n" }).collect()
}

#[test]
fn a_clean_run_passes_every_round_and_prints_the_summary() {
    let mut driver = Driver::new();
    for round in 0..ROUNDS {
        assert_eq!(driver.actions.last(), Some(&RoundAction::PrepareHome { round }));
        assert_eq!(driver.feed(clean_home()), &RoundAction::SpawnContender { round, index: 0 });
        for index in 1..PROCESSES_PER_WAVE {
            assert_eq!(driver.feed(RoundEvent::Done), &RoundAction::SpawnContender { round, index });
        }
        assert_eq!(driver.feed(RoundEvent::Done), &RoundAction::Sleep { millis: SETTLE_MILLIS });
        assert_eq!(driver.feed(RoundEvent::Done), &RoundAction::OpenBarrier);
        assert_eq!(driver.feed(RoundEvent::Done), &RoundAction::CollectContender { index: 0 });
        for (index, output) in one_winner_wave(round).iter().enumerate() {
            let next = driver.feed(RoundEvent::ChildExited(report(output)));
            if index + 1 < PROCESSES_PER_WAVE {
                assert_eq!(next, &RoundAction::CollectContender { index: index + 1 });
            } else {
                assert_eq!(next, &RoundAction::CheckLock);
            }
        }
        assert_eq!(driver.feed(RoundEvent::LockChecked { exists: false }), &RoundAction::CheckParents);
        assert_eq!(
            driver.feed(RoundEvent::ParentsChecked { zpkg_root_is_dir: true, locks_root_is_dir: true }),
            &RoundAction::ReadSentinel
        );
        assert_eq!(
            driver.feed(RoundEvent::SentinelRead { bytes: b"preserve-me".to_vec() }),
            &RoundAction::CleanUp
        );
        driver.feed(RoundEvent::Done);
    }
    assert_eq!(driver.actions.last(), Some(&RoundAction::Print(Line::Summary)));
    assert_eq!(driver.feed(RoundEvent::Done), &RoundAction::Exit);
    assert!(!driver.state.accepts(&RoundEvent::Done));
    let spawned = driver.actions.iter().filter(|a| matches!(a, RoundAction::SpawnContender { .. })).count();
    assert_eq!(spawned, ROUNDS * PROCESSES_PER_WAVE);
    assert_eq!(SETTLE_MILLIS, 300);
}

#[test]
fn dirty_home_fails_before_any_contender_starts() {
    let mut driver = Driver::new();
    let action = driver.feed(RoundEvent::HomePrepared {
        zpkg_root_exists: false,
        locks_root_exists: true,
        lock_exists: false,
    });
    assert_eq!(action, &RoundAction::Fail(Reason::DirtyHome));
    assert_eq!(driver.state.phase, Phase::Finished);
}

#[test]
fn two_winners_fail_the_wave() {
    let mut outputs = one_winner_wave(0);
    outputs[5] = "WIN";
    let mut driver = Driver::new();
    assert_eq!(
        driver.wave(&outputs),
        &RoundAction::Fail(Reason::WaveMismatch { winners: 2, contended: 10 })
    );
}

#[test]
fn no_winner_fails_the_wave() {
    let outputs = vec!["CONTENDED"; PROCESSES_PER_WAVE];
    let mut driver = Driver::new();
    assert_eq!(
        driver.wave(&outputs),
        &RoundAction::Fail(Reason::WaveMismatch { winners: 0, contended: 12 })
    );
}

#[test]
fn a_crashed_contender_fails_the_round_at_once() {
    let mut driver = Driver::new();
    driver.through_collection();
    driver.feed(RoundEvent::Done);
    driver.feed(RoundEvent::ChildExited(report("WIN")));
    let crashed = ChildReport {
        succeeded: false,
        status: "exit status: 1".to_string(),
        stderr: "panicked".to_string(),
        stdout: Err("never read".to_string()),
    };
    assert_eq!(
        driver.feed(RoundEvent::ChildExited(crashed)),
        &RoundAction::Fail(Reason::ChildFailed {
            status: "exit status: 1".to_string(),
            stderr: "panicked".to_string()
        })
    );
    assert_eq!(driver.state.phase, Phase::Finished);
}

#[test]
fn undecodable_and_unexpected_output_fail_the_round() {
    let mut driver = Driver::new();
    driver.through_collection();
    driver.feed(RoundEvent::Done);
    let undecodable = ChildReport {
        succeeded: true,
        status: "exit status: 0".to_string(),
        stderr: String::new(),
        stdout: Err("invalid utf-8 sequence of 1 bytes from index 0".to_string()),
    };
    assert_eq!(
        driver.feed(RoundEvent::ChildExited(undecodable)),
        &RoundAction::Fail(Reason::UnreadableChildOutput {
            detail: "invalid utf-8 sequence of 1 bytes from index 0".to_string()
        })
    );

    let mut driver = Driver::new();
    driver.through_collection();
    driver.feed(RoundEvent::Done);
    assert_eq!(
        driver.feed(RoundEvent::ChildExited(report("WINNER\n"))),
        &RoundAction::Fail(Reason::UnexpectedChildResult { output: "WINNER\n".to_string() })
    );
}

#[test]
fn aftermath_checks_fail_in_order() {
    let mut driver = Driver::new();
    driver.wave(&one_winner_wave(3));
    assert_eq!(
        driver.feed(RoundEvent::LockChecked { exists: true }),
        &RoundAction::Fail(Reason::LockLeftBehind)
    );

    let mut driver = Driver::new();
    driver.wave(&one_winner_wave(3));
    driver.feed(RoundEvent::LockChecked { exists: false });
    assert_eq!(
        driver.feed(RoundEvent::ParentsChecked { zpkg_root_is_dir: true, locks_root_is_dir: false }),
        &RoundAction::Fail(Reason::ParentsRemoved)
    );

    let mut driver = Driver::new();
    driver.wave(&one_winner_wave(3));
    driver.feed(RoundEvent::LockChecked { exists: false });
    driver.feed(RoundEvent::ParentsChecked { zpkg_root_is_dir: true, locks_root_is_dir: true });
    assert_eq!(
        driver.feed(RoundEvent::SentinelRead { bytes: b"changed".to_vec() }),
        &RoundAction::Fail(Reason::HomeStateModified)
    );
}

#[test]
fn classify_reads_trimmed_output() {
    assert_eq!(classify(&report(" WIN \n")), Outcome::Won);
    assert_eq!(classify(&report("CONTENDED")), Outcome::Lost);
    assert_eq!(classify(&report("win")), Outcome::Unrecognized);
    assert_eq!(classify(&report("")), Outcome::Unrecognized);
    let mut crashed = report("WIN");
    crashed.succeeded = false;
    assert_eq!(classify(&crashed), Outcome::Crashed);
}
