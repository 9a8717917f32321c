# cello

The request-processing core of a web framework: routing, middleware
decisions (CORS, CSRF, sessions, authentication, body limits, caching, static
files, security headers, request ids, tracing, guards, exception handling),
gRPC dispatch, OpenAPI generation, XML and template output, and the decisions
of the server loop. It is written in Verus: every function in `src/` carries a
contract, and Verus proves the code meets it.

## Layout

- `src/` — the library. One module per concern; `strmap.rs` holds the
  insertion-ordered string maps and sets (unique keys as their invariant) that
  the other modules use, `text.rs` the string functions and their
  specifications. Public `lemma_*` proof functions state properties that span
  several calls (for example that a stored session reads back until it
  expires, that a written `traceparent` parses back, that Base64 decoding
  undoes encoding, that guard combinators pass exactly when their parts do).
- `app/` — ordinary Rust around the library: reading files and directories,
  `serde` conversions of documents, Prometheus registration, floating-point
  statistics. It decides nothing that the library could; it calls the
  library's functions and hands them plain values.
- `tests/` — tests run against the compiled library.

## The trusted boundary

What Verus does not see is kept small and named. Each trusted item sits in
`src/` beside the code that uses it, marked `#[verifier::external_body]` (a
wrapper around one outside call) or `#[verifier::external_type_specification]`
(an outside type carried through), with a doc comment saying what its contract
claims of the outside code:

- hashing and encoding: `sha2`, `hmac`, `subtle`, `crc32fast`, `hex`,
  `base64` (`src/crypto.rs`, `src/random.rs`);
- routing trees and patterns: `matchit`, `regex` (`src/router.rs`,
  `src/routing.rs`);
- output: `serde_json` (a JSON object of plain members), `quick-xml`
  (`src/http.rs`, `src/xml.rs`);
- `urlencoding`, `mime_guess`, `uuid`, `rand`, `chrono`, `num_cpus`;
- from the standard library: the clock, `DefaultHasher`, `Path::file_name`,
  UTF-8 checks and Unicode case mapping.

Where an outside result takes pages to state, it has a name (an
uninterpreted spec function) and the contracts speak of that name. Where it
depends on chance or the clock, the function that takes it as an argument is
verified for every value (the `*_at` functions take the time).
