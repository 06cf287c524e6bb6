# rust_journey

Verified core of a set of small Rust projects: an image generator that
streams from the OpenAI image API, a greeter, a Fibonacci routine, a number
guessing game and a numbered file listing.

- `src/` is the library, checked by Verus:
  - `sse.rs`: framing of a `text/event-stream` body into event payloads,
    with the proof that the payloads do not depend on how the body is cut
    into chunks;
  - `openai.rs`: the image request, the meaning of each stream event
    (including its JSON `error` member), when reading stops (at the first
    completed image or the first error), error bodies and messages;
  - `config.rs`: the required environment variables and the redacted debug
    text of the configuration;
  - `pricing.rs`: exact cost accounting in micro-dollars;
  - `text.rs`: Unicode trimming, UTF-8 widths, decimal rendering;
  - `greeter.rs`, `fibonacci.rs`, `guessing.rs`, `listing.rs`.
- `app/` holds the programs: HTTP streaming, the typed reading of events
  (serde derives), environment and file access, terminal input and output.
- `tests/` runs the library on concrete values.
