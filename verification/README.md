# voting_wallet

A Verus-verified library with three parts:

- `voting`: a proposal-voting state machine. Signed accounts create
  proposals, vote once each while a proposal is open, and finalize it once
  it has expired; the outcome is a strict majority of the votes. Each call
  is specified by a transition function on `PalletState`, and the state
  invariant (tallies equal the recorded votes) is proved to hold after every
  call. `voting_laws` states and proves properties across calls.
- `wallet`: a secp256k1 key pair that signs the first 32 bytes of a message
  and checks signatures given as hex of DER encodings; a signature it makes
  is proved to verify.
- `runtime`: the constants of the hosting runtime and its weight-to-fee
  polynomial.

`hex_codec` wraps the `hex` crate with a full specification of its encoding
and decoding. `app/main.rs` is the interactive command-line wallet.
