# obscura_js

The JavaScript host layer of a headless browser: the rules and data handling that the
QuickJS runtime calls into (URLs, fetch policy and CORS, interception, redirects,
Web Crypto operations, DOM command decoding and node ordering,
search-result parsing, CDP evaluation helpers, the evaluation watchdog).

Layout:

- `src/` — the library, written in Verus. Every function carries a contract over
  mathematical models (`Seq`, `Map`, spec functions) and is proved. Calls into
  outside crates (url, base64, encoding_rs, urlencoding, serde_json, the RustCrypto
  crates, getrandom) go through small trusted wrappers whose doc comments state
  what is believed of them. Public `law_*` proof functions state the properties that
  span several operations.
- `tests/` — executable tests against the compiled library.
- `app/` — ordinary Rust around the library: the QuickJS runtime, the tokio/reqwest
  network side, the watchdog thread and the JNI entry points. It hands the library
  plain values and acts on what comes back.
