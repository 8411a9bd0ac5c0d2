# vinci_portal

The account logic of two Solana programs, the GIF portal and Vinci World,
as a verified library, with the Anchor programs around it.

- `src/keys.rs`: 32-byte account keys and their base58 text.
- `src/model.rs`: the model of a base account and the effect of each
  instruction on it, with the laws that relate them.
- `src/layout.rs`: the bytes in which a base account is stored (the anchor
  discriminator and the Borsh encoding), read and written, with round-trip
  laws.
- `src/gifportal.rs`, `src/vinci_world.rs`: the instructions of the two
  programs.
- `src/metadata.rs`, `src/token.rs`: the calls the programs make into the
  token and token metadata programs.
- `src/numbers.rs`: the small `sum` helper.
- `app/`: the Anchor account contexts and handlers, which load accounts,
  call the library, and perform the calls it plans.
