# wasip2_host

A host that runs WASI preview-2 components under a capability sandbox.

- `src/` is the verified library (Verus):
  - `text`: character-level prefix tests, slicing, path joining and decimal text.
  - `config`: the sandbox configuration (`SandboxConfig`, `PathMapping`), its presets,
    and the path, host and port rules.
  - `sandbox_fs`: `SandboxState` (file access decisions, open-handle and write
    accounting, network checks, the filtered environment) and `SandboxError`.
  - `launch`: command-line directory mappings, choosing and adjusting the
    configuration, the plan of the WASI context (environment, preopened
    directories, network policy), the entry point and the exit code.
- `app/` is the command-line program: argument parsing, reading the JSON
  configuration, creating directories, and running the component with wasmtime.
- `tests/` exercises the library.

Run `verus` on `src/lib.rs` to check the proofs.

## Deliberate choices

- Denied paths take precedence over allowed mappings. A WASI preopen cannot
  leave out a subdirectory, so `launch::plan_wasi_ctx` preopens no mapping
  whose guest path lies under a denied path or holds one. Such a mapping is
  left out whole: for example, with `/` mapped and `/etc` denied, nothing is
  preopened. The law `law_preopens_reach_no_denied_path` states that no path
  reachable through a preopened directory is denied.
- The guest's environment is the configured one filtered by `env_whitelist`,
  and network access follows `allowed_hosts` and `allowed_ports`; the
  command-line program installs a socket-address check for the lists. The
  check sees socket addresses only, so hosts are matched by their address in
  text form.
- `SandboxState` keeps its counters in plain fields (`&mut self` methods), and
  a type invariant keeps them within the configured limits in every state;
  `SandboxState::config` exposes that invariant to callers.
