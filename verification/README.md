# hey-proxy

One local endpoint for OpenAI and Gemini. The proxy forwards OpenAI requests, converts
Responses requests for Gemini and back, translates chat completions, tries other models where
one fails, and keeps a log of requests with a dashboard.

- `src/` is the library: routing rules, conversions, streams, recovery, the request log and
  its reports. Functions state what they return in `requires` and `ensures`, and Verus proves
  it. Calls into other crates, and a few into the standard library, stand behind small
  wrappers in `src/outside.rs`, `src/exchange.rs` and `src/text.rs`; their contracts are
  trusted. The wrappers of the clock and of random numbers promise no particular value.
- `tests/` runs the library on concrete values.
- `app/` is the program around it: arguments, files, sockets, credentials and the database.

## Reading the contracts

JSON values are viewed as a `Tree` (`src/tree.rs`), texts as sequences of characters. State
machines, such as a stream that is converted or a request that is delivered, have a ghost view
whose spec methods say what each step does; the executable methods are proved equal to them.
What depends on the time or on chance exists twice: once with the time and the random bytes
as arguments and an exact contract, and once in the form that callers use.

The laws that relate several functions are public proof functions at the end of the modules
that they are about, under the heading `laws`. Some have modules of their own:
`src/chat/ledger.rs` on what the chunks of a whole chat stream make up,
`src/gemini/turns.rs` and `src/gemini/followup.rs` on a model's turn that goes to the client
and comes back in its next request, and `src/gemini/truncation.rs` on streams that break off.
