# telchar

Telchar is a self-hosted Nix build gateway: stock Nix clients connect over `ssh-ng`, and the
gateway records their requests in PostgreSQL, coalesces those for the same derivation, queues them
per subject and has them built locally, over SSH or by Nomad workers.

This crate holds what the gateway decides, as a library whose contracts are proved by
[Verus](https://github.com/verus-lang/verus), and around it the service that acts on the decisions.

## Layout

- `src/` is the library. Nothing in it performs input or output. Whatever has to be done outside is
  an action that a function asks for, and what came of it is an event or a reply that the function
  takes:
  - `persistence` names the statements of every database operation, one after the other, from the
    replies so far; `persistence::database` has the statements, rows and replies, and
    `persistence::rows` models what statements do to rows and says what operations come to on them.
  - `service` has the configuration, the envelopes between frontends and the daemon, the ownership
    of the database, background workers, cache publication and metrics.
  - `runtime` brings the daemon and the local executor up, runs the daemon's loop and serves the
    sessions of frontends.
  - `nomad_callback_http`, `nomad_callback_service`, `nomad_transfer_authentication` and
    `nomad_transfer_protocol` serve the workers that Nomad runs.
  - `operator` has the commands and reports for operators.
  - `text`, `path`, `bytes`, `time`, `fault`, `permits`, `backend` and `metadata` are shared by these, and
    `crypto` holds the calls into other crates with what is relied on of each.
- `app/` is ordinary Rust: sockets, threads, SQL, files, signals and telemetry. Stores, build
  backends and the Nix worker protocol come in through its `Gateway` trait.
- `tests/` runs the library on concrete values.

## What is proved

Each function states what it returns for every input. Beyond that the library states laws as
public proof functions, among them:

- no subject that waits is passed over (`waiting_subject_has_its_turn`), and quotas hold whenever a
  build is queued or started (`quotas_are_kept`);
- an operation that is repeated finds what the first one left: migrations are applied once
  (`migrating_again_applies_nothing`), executions are registered and end once
  (`registering_again_finds_the_execution`, `completing_again_finds_the_end`), a claimed build is
  joined (`claiming_again_joins_the_build`), a reserved nonce is not new
  (`reserved_nonce_is_not_new`), attachments end once (`detached_request_stays_so`), attempts and
  builds that ended are not ended again (`ended_attempt_is_not_ended_again`,
  `completed_build_is_not_completed_again`), and recovered attempts are not recovered again
  (`recovered_attempts_are_not_recovered_again`);
- a queued build waits behind all others (`queued_build_waits_behind_all_others`), and no subject
  has more builds waiting or running than it may (`started_build_runs_within_its_quota`);
- attempts, requests and reservations pass through the phases together
  (`completed_attempt_is_collected`), and an owner that was superseded is fenced
  (`superseded_owner_is_fenced`);
- whoever joins a build gets the one that was asked for (`joined_build_is_the_same`), and a build
  ends once (`build_ends_once`);
- envelopes and frames are read back as they were written (`encoded_envelope_is_decoded`,
  `written_frame_is_read_back`), and a session takes exactly the frames that are in order
  (`frames_are_taken_in_order`);
- settings can be reloaded both ways or neither (`reloads_go_both_ways`), and what a reload adds
  and removes is by how much the backends change (`reload_counts_balance`);
- the payloads of an input that is sent to its end are its NAR (`sent_payloads_are_the_nar`);
- a replayed callback is refused (`replay_is_refused`), inputs go only to workers that were let in
  (`manifest_needs_admission`), and a build counts as built only once the store holds its outputs
  (`built_means_verified`);
- the daemon stops for good once ownership is lost (`lost_ownership_stops_the_daemon`,
  `stopping_is_final`).
