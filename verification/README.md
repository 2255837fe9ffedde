# Wazuh agent installer — verified core

The logic of a desktop installer for the Wazuh security agent stack, as a
Verus library whose functions are proved against their contracts.

- `src/text.rs` — the meaning of `trim`, `lines`, `split_whitespace`,
  `find`, `replace`, decimal numbers and `i32` parsing over `Seq<char>`,
  with verified implementations on `Vec<char>`.
- `src/version.rs` — reading component versions from command output,
  including Suricata's, whose markers are searched in the lowercased text's
  bytes and cut out of the given text's bytes.
- `src/logs.rs`, `src/outcome.rs` — log line levels, what a line of a
  child's output triggers, and the reported outcome of a task.
- `src/command.rs`, `src/component.rs`, `src/netbird.rs`,
  `src/enrollment.rs`, `src/config.rs`, `src/tray.rs` — the commands the
  installer runs, the component audit, NetBird's and the enrollment state,
  settings and the tray.
- `src/privilege.rs` — how the privileged commands run: directly on
  Windows or as root, else through `sudo -S` once the password was
  checked, the password written only to the commands' standard input.
- `src/launcher.rs` — relaunching on macOS with administrator rights, with
  proofs that the shell and AppleScript quoting read back exactly.
- `app/` — the Tauri application: processes, files, environment, tray.
