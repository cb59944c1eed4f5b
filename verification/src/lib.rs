//! An NFT auction ledger: NFTs are minted with a DNA derived from a hash,
//! each is auctioned for a fixed number of blocks, bidders outbid each
//! other, and once the auction closes its owner settles it: the NFT goes to
//! the highest bidder, whose price is paid to the previous owner, and the
//! auction is marked settled.

mod behaviour;
mod dna;
mod genesis;
mod laws;
mod model;
mod pallet;
mod table;
mod types;

pub use behaviour::{
    law_mint_behaviour, law_bid_behaviour, law_settle_behaviour, law_gen_dna_behaviour, law_dna_payload_layout,
};
pub use dna::{spec_gen_dna, dna_payload, blake2_128_digest, index_or_zero, u32_le_bytes, u64_le_bytes};
pub use genesis::{GenesisConfig, genesis_run, genesis_valid, genesis_entry_ok, occurrences, lemma_genesis_valid, law_genesis_mints_all};
pub use laws::{
    law_ownership, law_count_matches_nfts, law_owned_bounded, law_bid_consistency, law_dna_taken,
    law_mint_registers, law_bids_increase, law_open_auction_not_settled, law_bid_keeps_owners,
    law_settlement_moves_nft, law_due_auction_settles,
    law_one_event_each, law_call_keeps_inv, law_calls_keep_inv, law_mint_keeps_count,
    law_mint_keeps_ownership, law_settled_stays_settled, law_paid_at_most_once, law_bid_price_never_falls,
};
pub use model::{
    PalletState, Call, call_result, run_calls, auction_end, minted_nft, mint_check, mint_apply, mint_outcome, bid_check, bid_apply, bid_actions,
    settle_check, settle_apply, settle_actions, record_event, position_of, swap_remove_value,
};
pub use pallet::{Pallet, dna_of};
pub use types::{AccountId, Balance, BlockNumber, Dna, BLOCK_DELAY, NFT, Config, Event, Error, DispatchError, CurrencyAction};
