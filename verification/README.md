# nub

The core of `nub`, a control plane for one container host, as a verified
library: every function in `src/` carries a contract. Verus proves them
all, apart from the few small wrappers (marked
`#[verifier::external_body]`) that call `base64`, `ring`, `bytes`,
`toml_edit`, `qrcode` and a handful of standard-library functions; their
contracts state what those crates and functions document.

- `src/auth` — scopes (`<resource>:<action>` grants, wildcards, presets),
  Ed25519-signed JWTs (framing, signing, checks of algorithm, signature,
  expiry, not-before and audience), the issuer key, and the bearer-token
  decisions of the API gate.
- `src/compose` — compose YAML turned into container specs: variable
  substitution, durations, ports, volumes, restart policies, healthchecks,
  secrets and configs.
- `src/client` — the engine address and kind, query strings, and the line
  and multiplexed-frame parsers for streamed responses.
- `src/config` — XDG locations and the `nub.toml` schema.
- `src/cli` — the decisions behind the `nub` commands: minting inputs,
  connect URLs, systemd units, update plans, the bind allowlist, and the
  stack and secret listings.
- `app/` — the `nub` binary: argument parsing, files, the environment, the
  engine socket, `systemctl`, and printing.
- `tests/` — tests run against the compiled library.
