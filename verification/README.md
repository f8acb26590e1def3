# matter

The Matter logic technology: Matter's Interaction Model invoke action over
TLV, with its behaviour stated in Verus contracts and proved.

- `src/tlv.rs` — the TLV codec. `src/tlv/layout.rs` says what the bytes of an
  element are (`encoding`) and what bytes read back as (`decoding`, with refusals
  and their offsets); `encode` and `decode` are proved to compute exactly
  those, and `src/tlv/proofs.rs` proves that decoding reads back any encoding;
  `src/tlv/extent.rs` proves that a refusal points inside the bytes and that
  bytes after a whole element are refused where it ends.
- `src/invoke.rs` — the invoke request and response messages over TLV;
  `src/invoke/messages.rs` is their layout, `src/invoke/reading.rs` what an
  element reads as, `src/invoke/laws.rs` the proof that each message reads
  back as itself.
- `src/naming.rs` — names of clusters, commands and statuses, and ids read
  from names or numbers.
- `src/lib.rs` — `Matter`: what an arriving request becomes, what an outcome
  goes back as, what an invocation goes out as, what a reply comes to, and
  under which stream id each goes;
  `src/laws.rs` proves what survives a round between them.
- `src/text.rs` — decimal and hexadecimal text, text comparison.
- `app/` — the node's `logic::Logic` over the library.

A floating-point TLV value is held as its IEEE 754 bits (`f32::to_bits`,
`f64::to_bits`).
