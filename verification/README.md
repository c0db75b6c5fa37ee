# cros-codecs

Bitstreams for hardware video encoders, in verified Rust (Verus).

- `src/bits.rs`, `src/syntax.rs`: bit sequences, and syntax tables as mathematical objects.
  A table is the sequence of elements that a structure is coded as. Writers and readers are
  both proved against the same tables.
- `src/codec/h265`: the H.265 parameter sets and slice segment headers. `tables.rs` holds the
  syntax tables, `synthesizer.rs` writes NAL units, `nalu.rs` finds them in a byte stream,
  `parser/` reads them, and `laws.rs` states that what was written is read back.
- `src/codec/av1`: the same for the AV1 sequence header.
- `src/encoder`: the configuration of encoders; the low delay predictor, which builds the
  parameter sets and the request for each frame; and what a VA-API driver is handed for a
  request.
- `app/`: ordinary Rust around the library: writers, and the VA-API calls.
- `tests/`: tests with concrete values.

The one function that is trusted is `shared::share`, which clones a shared pointer.
