# bridge_core

The verified core of the Tractor Beam bridge client, written in Verus.
Every function in `src/` carries a contract that Verus proves, except the
calls into other crates and into std below, whose contracts are taken on
trust (`#[verifier::external_body]`); each states only what that crate's
source or documentation shows:

- `base58`: `base58_encode`, `base58_decode`, `base58_error_text` (no
  contract: the `Debug` text of a `bs58` error), and the declared
  `bs58::decode::Error`.
- `digest`: `sha256` (`sha2`).
- `join_code`: `random_16_bytes` (`rand`; no contract on the bytes).
- `utf8`: `utf8_text` (`str::from_utf8`).
- `client_config`: the declared `toml_edit::DocumentMut`, and `toml_parse`,
  `toml_set_string`, `toml_remove`, `toml_render` (`toml_edit`).

- `session_health`, `health_stats`, `latency`, `delivery`, `direct_health`:
  session evidence and the quality verdict over the window since the last
  snapshot.
- `room_path_quality`, `smoothness`: per-peer path measurements and the
  combined smoothness estimate.
- `lan_data`, `lan_ledger`, `tally`, `direct_log`, `direct_receive`: the LAN
  direct data plane's ledger, incidents and log lines.
- `join_code`, `lan_join_code`, `pow`, `digest`, `base58`, `utf8`: relay and
  LAN Direct join codes and the relay's proof of work, over `sha2` and `bs58`.
- `lan_membership`, `lan_path`, `lan_control`, `lan_adapter`: who is in a
  LAN room, the direct UDP path to each peer, the control plane's checks, and
  the adapters and candidate addresses a room binds.
- `client_config`, `session_config`, `build_info`: configuration checks.
- `probe`, `observability`, `upload`, `package`, `record_reader`,
  `diagnostics`: reports, HTTP upload framing, troubleshooting-package bounds
  and the diagnostics text.
- `hook_ipc`, `hook_link`, `hook_lifecycle`, `input_delay`, `packet_flow`,
  `process_choice`, `logging`: decisions of the hook link and session runtime.
- `light_ping`, `relay_recovery`, `relay_join`, `process_wait`,
  `client_session`: the steps of a light ping run, a relay reconnect and
  join, the wait for the game process and the client's session state; the
  caller performs each action and hands back its outcome.
- `laws`: properties of the library as a whole.

`app/` holds the I/O the library leaves to its caller: the configuration
file, `tracing` output, buffered readers and writers driven by the library's
step functions, the HTTP upload, and the clock. It does not hold the session
runtime (relay transport, hook IPC, LAN sockets, the session loop): the
protocol, injector and hook-IPC crates that runtime is built on are not part
of this project, so the step functions for it stand in `src/` without a
driver.
