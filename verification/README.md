# zeroclaw_api

Provider-neutral access to large language models: messages and their turn order,
responses and when they count as empty, the prompt-guided tool protocol, streaming
types, and the declarations by which a provider says what it can do.

- `src/` is the library. Its functions have contracts that Verus proves, but for the
  wrapper `to_json`, whose contract is believed, and the derived `Clone` impls, which
  have none. Text is modelled by sequences of characters. The functions named `law_*`
  state what holds of several functions together.
- `tests/` runs the library.
- `app/` is ordinary Rust around the library: the asynchronous `ChatProvider` trait,
  errors as `std::error::Error`, and the serialized forms of the types.

Two things are believed rather than proved: that `serde_json::to_string` depends on
the value alone (`src/tool.rs`), and what two conversions into `String` of the
standard library do (`src/text.rs`).
