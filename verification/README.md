# univers_ark_developer

The machine, container and tunnel logic of the Ark developer console, written in
Verus: every function of the library carries a contract, and the contracts are
proved.

## Layout

- `src/` — the verified library.
  - `model` — machines, containers, surfaces and the configuration file.
  - `text`, `ssh`, `chain` — text helpers, SSH command lines and the hop chains that
    reach a target.
  - `discovery`, `sources`, `ssh_users`, `scan` — reading what container managers
    report (CSV, JSON, OrbStack), choosing addresses and users, and scanning a
    machine with the runs of its commands handed in.
  - `projection`, `inventory`, `load` — turning discovered containers into targets,
    server states and inventories, and loading the inventory from scans and stored
    snapshots, kept in a cache until the configuration changes.
  - `local_machine` — the entry for the machine the console runs on.
  - `runtime`, `tunnel`, `http`, `browser`, `sessions`, `rate` — local ports,
    tunnel plans and their monitoring, HTTP request heads for the development proxy,
    browser readiness probes, the table of live sessions and a sliding rate window.
  - `actions` — restarting containers and deploying the local public key.
  - `json` — the rewrite of the legacy workspace key in configuration documents.
- `tests/` — tests of the library on concrete values.
- `app/` — the command-line program around the library: files, processes, sockets,
  terminals and serde copies of the library's types.

Outside crates: `csv` and `url` are called from the library through wrappers whose
contracts are stated in `src/`; `serde`, `serde_json` and `portable-pty` are used by
the program in `app/`.
