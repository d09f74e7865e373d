# agent_guard

A zero-trust runtime for software agents, verified with Verus.

- `policy`: deny-by-default authorization of tool calls, with globs for paths (`glob`), exact
  domains, and approval by a human for high-risk tools.
- `runtime`: `AgentGuard`, which evaluates a call, asks for approval where the policy wants it,
  records the decision and then executes the call or blocks it.
- `audit`: a hash-chained log with Ed25519 signatures; `verify_chain` says whether it is as it was
  recorded. `canonical` and `hex` hold the formats.
- `laws` and `tamper`: what is proved of the library as a whole.
- `crypto`, `clock` and one line of `text`: the functions of other crates and of the standard
  library that are called, with the contracts that are trusted of them.

The time of an audit entry is the decimal text of its seconds. Keys are plain bytes. `app/` holds
what needs floating point, `Display`, `Error` or a key type of the signature crate.
