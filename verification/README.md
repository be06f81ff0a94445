# concurrent_install_locking

The decision core of two local install-lock canaries, verified with Verus.

- `src/process_canary.rs`: the contention-wave canary's command line, its
  failures and their messages, the lines it prints, the names it gives to
  owners and scratch directories, the layout of a round below its scratch
  directory, the arguments a contender is started with (read back by its own
  command-line parser), and the caller-owned file's content.
- `src/attempt.rs`: one contending process, as a state machine; laws: one try,
  one verdict, a release only of a won lock, a truthful verdict.
- `src/coordinator.rs`: the coordinating process, as a state machine over
  rounds; laws: a wave passes exactly when one contender won and all others
  were contended, a round moves on only after its post-release checks pass,
  and a run succeeds only after every round.
- `src/cross_runtime.rs`: the hold / contend / acquire probe, as a state
  machine; laws: one try, a taken lock is released before the probe stops
  (but for a holder whose release file never came), success as the mode asks.
- `src/protocol.rs`, `src/text.rs`, `src/error.rs`: shared vocabulary, text
  helpers (decimal rendering, white-space trimming, `Debug` quoting) and the
  failure type.
- `app/`: the programs themselves, which perform what the machines ask for
  (files, processes, clock, the `ores_locks_and_leases` lock backend).
- `tests/`: runs of the machines and the helpers on concrete values.
