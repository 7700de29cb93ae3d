# helix_verified

The decision-making core of the Helix desk, written in Verus: every function
in `src/` carries a contract that Verus proves.

- `src/` — the verified library: sandbox admission and plan hashing,
  symbolic reasoning (parsing, interning, forward chaining, decisions),
  expert voting, the neuro-symbolic gate, operator configuration, cycles,
  confirmations and sessions, federation peers and dispatch logs, recipes
  and their dependency graphs, profiles, the agent state store with its JSON
  values, LLM conversation context, prompt templates, agent identity, and
  the plain-language automation request parser.
  Laws that span several functions are public proof functions named `law_*`.
- `tests/` — executable tests of the library.
- `app/` — the runtime around it: serde encodings, async handles, the
  operator loop driver, HTTP providers and floating-point scoring.

Calls into outside crates (sha2, serde_json, url, uuid, chrono, regex) stand behind
small `#[verifier::external_body]` wrappers whose doc comments say what is
trusted.

Outside the library's scope: the analysis of code quality over floating-point
scores, the parsing of intent facets, and timed source agents that sleep and
emit events.
