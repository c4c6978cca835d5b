# hearth_lib

The decisions of Hearth, a daemon that runs a local PHP development
environment next to (or instead of) Laravel Herd and Valet, written in Verus
and proved against their contracts.

Hearth keeps one canonical PHP INI store and materializes it into the scan
directories of every PHP it finds: its own cached binaries, Herd's and
Homebrew's. It supervises PHP-FPM, nginx, databases and Laravel workers, and
hands site commands to Valet or Herd.

## Layout

- `src/` is the library. It performs no I/O. A decision about files is a
  function of a `Snapshot` of the file system. An operation that alternates
  decisions and I/O is a state machine: its stage says what has to be done, the
  caller does it and hands back a reply.
  - `config`, `socket`: the configuration store and the daemon's messages.
  - `text`, `scan`, `path`, `strmap`, `fs`, `clock`, `lower`, `utf8`: texts,
    paths, ordered maps and snapshots, each with a mathematical view.
  - `php::ini_guard`, `php::mutation`, `php::migration`: which directives are
    accepted, and how the store changes.
  - `php::roots`, `php::targets`, `php::channel_dir`, `php::resolver`: where PHP
    is found, and where Hearth may write.
  - `php::manifest`, `php::artifact`, `php::artifact_dir`, `php::batch`,
    `php::recovery`, `php::preflight`, `php::lock`, `php::txn`, `php::journal`:
    journaled writes under a lock, and what the journal guarantees.
  - `php::reconcile`, `php::fpm`, `php::rows`, `php::assembly`, `php::engine`:
    materialization, reports and the configuration engine.
  - `php::conduct`, `php::fpm_conduct`: what holds of the engine, and of the FPM
    artifacts over whole transactions.
  - `service`, `service::managed`, `service::supervisor`, `service::sweep`,
    `service::policy`, `service::manager`: supervision, and whose PHP-FPM is
    ever touched.
  - `site`, `valet`: site listings and site commands.
- `app/` is ordinary Rust around the library: files, processes, environment,
  time and the wire format.
- `tests/` runs the library against file trees and processes held in memory.

## Reading a contract

Every type that holds text has a view without it (`Manifest` and
`ManifestView`). A state machine's `step` is stated by one spec function
(`lock_next`, `txn_next`, `engine_next`, ...), and the public proof functions
beside it state what holds whatever the outside answers.
