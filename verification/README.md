# oben

Two parts of an agent, written and verified in Verus.

- Message sanitization: what a conversation goes through before it is sent to a model
  (`message`, `sanitize`, laws in `sanitize_laws`).
- Web search: the requests of four search providers, the reading of their replies, and the tool
  that offers them to a model (`config`, `providers`, `ddg`, `web_search`, laws in `search_laws`).

The library in `src/` does no input or output. A search is a series of steps: it is told what has
happened (`SearchEvent`) and says what is to be done next (`SearchStep`). `app/` does that work over
HTTP and offers the tool asynchronously.

What is believed without proof is marked `Trusted` in the doc comments: appending a character to a
string, comparing and trimming string slices, percent-encoding by `urlencoding`, removing tags by
`regex`, and the JSON value type of `serde_json`, which is only carried through.
