# pallet_nft

A verified NFT auction ledger. NFTs are minted under a DNA (the Blake2b-128
hash of a SCALE-encoded random seed, extrinsic index and block number); each
NFT's auction stays open for `BLOCK_DELAY` blocks, bidders must outbid one
another, and once the auction closes its owner settles it: the NFT moves to
the highest bidder (owner field and both accounts' lists), the bid price is
transferred to the previous owner, and the auction is marked settled.

Each account's list of owned NFTs is a `Vec` whose length the ledger's
invariant bounds by the configured limit; a limit-bounded collection type
would need the limit as a type parameter, where here it is a value of the
ledger's `Config`.

- `src/types.rs`: the plain data types (NFT, events, errors, currency actions).
- `src/model.rs`: the abstract state `PalletState`, its invariant, and the
  exact outcome of every operation as spec functions.
- `src/table.rs`: the vector representation of the two keyed tables and the
  lemmas, generic over the key, that tie it to `Map`.
- `src/pallet.rs`: the executable ledger `Pallet`, verified against the model.
- `src/genesis.rs`: checking and building the first block's ledger.
- `src/dna.rs`: the two calls into outside crates (SCALE encoding, Blake2b).
- `src/laws.rs`: properties of the ledger as a whole, proved, including
  ones over arbitrary sequences of calls (`Call`, `run_calls` in the model).
- `app/lib.rs`: glue that reads origins and randomness and performs the
  currency locks and transfers that the ledger asks for.
