# arkavo_protocol

The policy and bookkeeping core of the Arkavo agent-to-agent protocol,
written in Verus. The functions in `src/` carry contracts that the verifier
proves, except the small wrappers around outside crates and the clock,
whose contracts are trusted.

- `src/` — the library. Data classification and taint labels, the taxonomy
  map and policy join, sequence-integrity errors, task lifecycle rules,
  rate-limit decisions, token and replay stores, OAuth2 and device
  registration flows, push-notification subscriptions, peer bookkeeping,
  the episode buffer, agent-configuration versions and backups, the prompts
  and replies composed around a model turn, and transport failover. Calls
  into outside crates (regex, sha2, hex, bs58, lru, uuid, chrono, base64,
  urlencoding, jsonwebtoken, rand, serde_json) go through small trusted
  wrappers whose contracts say what those crates document.
- `tests/` — tests of the library on concrete values.
- `app/` — what stays outside the proofs: file reads and writes, JSON
  parsing into the library's types, the governor-backed rate limiters, and
  the settings that hold floating-point numbers.
