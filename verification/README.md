# rayo

The request-path core of Rayo, a Python web framework with a Rust core,
written in Verus and verified.

- `src/` is the verified library:
  - `json` — JSON text of handler return values (a `JsonValue` tree) and
    string literals (escaping, framing), with proofs that an escaped string
    holds no control byte and decodes back to its input;
  - `params` — path-parameter kinds, decimal and boolean parsing, the 422
    body for a value that does not convert, and argument resolution;
  - `router` — one `matchit` radix tree per HTTP method;
  - `service` — route registration at startup and per-request planning;
  - `task` — the bookkeeping of a handler task (Task/Future protocol);
  - `scheduler` — least-loaded placement, in-flight totals, loop names,
    the single-use response slot;
  - `shutdown` — the graceful-shutdown sequence;
  - `response`, `text` — wire responses and decimal text.
- `app/` is the PyO3 extension module, the Hyper server and the event-loop
  threads; it performs the I/O and Python calls the library decides on.
- `tests/` run the library with the real `matchit`.
