# agentkit

Verified building blocks of an LLM proxy, a wiki tool server and a bot-brain toolkit.

- `src/` is the library, written in Verus: its functions carry contracts and are proved
  against them, except the few trusted wrappers around outside crates described below.
  - `text`: text utilities (whitespace, trimming, truncation, chunking).
  - `json`: the JSON document model used throughout, with read/write laws.
  - `proxy`: request and response decisions of the proxy, Server-Sent-Events parsing,
    merging streamed events into one response, synthesizing streams from complete
    responses (and the proof that an Anthropic stream merges back into its message),
    request logging, usage counts and the backend context-size cache.
  - `wiki`: articles and chunks, markup cleaning, chunking, the dump reader as a state
    machine over XML events, the in-memory article store and the tool server protocol.
  - `brain`: the integer parts of the bot brains (kinds, weapon state, goal keys).
- `tests/` runs the library on concrete inputs.
- `app/` is ordinary Rust around the library: reading dump files, metrics with rates and
  durations and their formats, configuration with fractional values, serializable records,
  and the floating-point heatmap and engagement estimators.

Calls into `regex`, `serde_json`, `flate2`, `brotli`, `zstd`, `quick-xml` and `chrono`
sit behind small trusted wrappers whose contracts say only what those crates document;
Verus believes those contracts without proof.
