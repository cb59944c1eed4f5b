use pallet_nft::{
    Config, CurrencyAction, DispatchError, Dna, Error, Event, GenesisConfig, Pallet, NFT, BLOCK_DELAY,
};

const A: Dna = *b"aaaaaaaaaaaaaaaa";
const B: Dna = *b"bbbbbbbbbbbbbbbb";

fn ledger(max: u32) -> Pallet {
    Pallet::new(Config { max_nfts_owned: max })
}

fn payload(random: [u8; 32], index: u32, block: u64) -> Vec<u8> {
    let mut bytes = random.to_vec();
    bytes.extend_from_slice(&index.to_le_bytes());
    bytes.extend_from_slice(&block.to_le_bytes());
    bytes
}

#[test]
fn gen_dna_hashes_the_encoded_payload() {
    let random = [3u8; 32];
    let dna = Pallet::gen_dna(random, Some(7), 42);
    let bytes = payload(random, 7, 42);
    assert_eq!(bytes.len(), 44);
    assert_eq!(dna, sp_io::hashing::blake2_128(&bytes));
    let mut prefix = [0u8; 16];
    prefix.copy_from_slice(&bytes[..16]);
    assert_ne!(dna, prefix);
}

#[test]
fn gen_dna_without_extrinsic_index_uses_zero() {
    let random = [9u8; 32];
    assert_eq!(Pallet::gen_dna(random, None, 5), Pallet::gen_dna(random, Some(0), 5));
    assert_ne!(Pallet::gen_dna(random, None, 5), Pallet::gen_dna(random, None, 6));
    assert_ne!(Pallet::gen_dna(random, Some(1), 5), Pallet::gen_dna(random, Some(2), 5));
}

#[test]
fn create_nft_mints_the_generated_dna() {
    let mut p = ledger(4);
    let random = [1u8; 32];
    assert_eq!(p.create_nft(5, random, Some(2), 11), Ok(()));
    let dna = Pallet::gen_dna(random, Some(2), 11);
    assert_eq!(p.nfts_owned(5), vec![dna]);
    assert_eq!(p.nfts(dna).unwrap().end, 111);
}

#[test]
fn auction_closes_after_the_delay() {
    assert_eq!(Pallet::get_block_number(5), 105);
    assert_eq!(BLOCK_DELAY, 100);
    let mut p = ledger(4);
    assert_eq!(p.mint(1, A, 7), Ok(A));
    assert_eq!(
        p.nfts(A),
        Some(NFT { dna: A, bid_price: None, bidder: None, owner: 1, end: 107, settle: false })
    );
    assert_eq!(p.nfts(B), None);
}

#[test]
fn mint_records_owner_count_and_event() {
    let mut p = ledger(4);
    assert_eq!(p.mint(1, A, 1), Ok(A));
    assert_eq!(p.mint(1, B, 1), Ok(B));
    assert_eq!(p.nft_cnt(), 2);
    assert_eq!(p.nfts_owned(1), vec![A, B]);
    assert_eq!(p.nfts_owned(2), Vec::<Dna>::new());
    assert_eq!(
        p.events(),
        vec![Event::Created { nft: A, owner: 1 }, Event::Created { nft: B, owner: 1 }]
    );
    let mut candidates = p.settlement_candidates();
    candidates.sort();
    assert_eq!(candidates, vec![(1, A), (1, B)]);
}

#[test]
fn mint_beyond_the_limit_fails() {
    let mut p = ledger(1);
    assert_eq!(p.mint(1, A, 0), Ok(A));
    let before = p.clone();
    assert_eq!(p.mint(1, B, 0), Err(DispatchError::Module(Error::TooManyOwned)));
    assert_eq!(p, before);
    assert_eq!(p.mint(2, B, 0), Ok(B));
}

#[test]
fn zero_limit_refuses_every_mint() {
    let mut p = ledger(0);
    assert_eq!(p.mint(1, A, 0), Err(DispatchError::Module(Error::TooManyOwned)));
    assert_eq!(p.nft_cnt(), 0);
    assert_eq!(p.max_nfts_owned(), 0);
}

#[test]
fn dna_is_taken_for_every_account() {
    let mut p = ledger(4);
    assert_eq!(p.mint(1, A, 0), Ok(A));
    assert_eq!(p.mint(2, A, 0), Err(DispatchError::Module(Error::DuplicateNFT)));
    assert_eq!(p.nfts_owned(2), Vec::<Dna>::new());
}

#[test]
fn first_bid_only_locks() {
    let mut p = ledger(4);
    p.mint(1, A, 0).unwrap();
    assert_eq!(p.bid(2, A, 10, 1), Ok(vec![CurrencyAction::SetLock { who: 2, amount: 10 }]));
    let nft = p.nfts(A).unwrap();
    assert_eq!(nft.bid_price, Some(10));
    assert_eq!(nft.bidder, Some(2));
    assert_eq!(p.events().last(), Some(&Event::Bidded { nft: A, bidder: 2, bid_price: 10 }));
}

#[test]
fn outbidding_releases_the_previous_lock() {
    let mut p = ledger(4);
    p.mint(1, A, 0).unwrap();
    p.bid(2, A, 10, 1).unwrap();
    assert_eq!(
        p.bid(3, A, 11, 2),
        Ok(vec![CurrencyAction::RemoveLock { who: 2 }, CurrencyAction::SetLock { who: 3, amount: 11 }])
    );
    assert_eq!(p.nfts(A).unwrap().bidder, Some(3));
}

#[test]
fn bids_must_increase() {
    let mut p = ledger(4);
    p.mint(1, A, 0).unwrap();
    p.bid(2, A, 10, 1).unwrap();
    let before = p.clone();
    assert_eq!(p.bid(3, A, 10, 2), Err(DispatchError::Module(Error::BidPriceTooLow)));
    assert_eq!(p.bid(3, A, 9, 2), Err(DispatchError::Module(Error::BidPriceTooLow)));
    assert_eq!(p, before);
}

#[test]
fn bid_on_missing_nft_fails() {
    let mut p = ledger(4);
    assert_eq!(p.bid(2, A, 10, 1), Err(DispatchError::Module(Error::NoNFT)));
}

#[test]
fn bid_after_close_fails() {
    let mut p = ledger(4);
    p.mint(1, A, 0).unwrap();
    assert!(p.bid(2, A, 10, 99).is_ok());
    assert_eq!(p.bid(3, A, 20, 100), Err(DispatchError::Module(Error::BidClosed)));
}

#[test]
fn withdrawal_settles_and_pays_the_owner() {
    let mut p = ledger(4);
    p.mint(1, A, 0).unwrap();
    p.bid(2, A, 10, 1).unwrap();
    assert_eq!(p.withdrawal(1, A, 99), Err(DispatchError::Module(Error::BidNotClosed)));
    assert_eq!(
        p.withdrawal(1, A, 100),
        Ok(vec![
            CurrencyAction::RemoveLock { who: 2 },
            CurrencyAction::Transfer { from: 2, to: 1, amount: 10, keep_alive: false },
        ])
    );
    let nft = p.nfts(A).unwrap();
    assert!(nft.settle);
    assert_eq!(nft.owner, 2);
    assert_eq!(nft.bid_price, Some(10));
    assert_eq!(nft.bidder, Some(2));
    assert_eq!(p.nfts_owned(1), Vec::<Dna>::new());
    assert_eq!(p.nfts_owned(2), vec![A]);
    assert_eq!(p.nft_cnt(), 1);
    assert_eq!(p.events().last(), Some(&Event::Withdrawal { nft: A, from: 1, to: 2 }));
    assert_eq!(p.withdrawal(1, A, 200), Err(DispatchError::Module(Error::NFTSettled)));
}

#[test]
fn settle_nft_keeps_the_winner_alive() {
    let mut p = ledger(4);
    p.mint(1, A, 0).unwrap();
    p.bid(2, A, 10, 1).unwrap();
    assert_eq!(
        p.settle_nft(1, A, 150),
        Ok(vec![
            CurrencyAction::RemoveLock { who: 2 },
            CurrencyAction::Transfer { from: 2, to: 1, amount: 10, keep_alive: true },
        ])
    );
    assert_eq!(p.settle_nft(1, A, 151), Err(DispatchError::Module(Error::NFTSettled)));
}

#[test]
fn only_the_owner_may_withdraw() {
    let mut p = ledger(4);
    p.mint(1, A, 0).unwrap();
    p.bid(2, A, 10, 1).unwrap();
    assert_eq!(p.withdrawal(2, A, 100), Err(DispatchError::Module(Error::WithdrawalNotOwner)));
    assert_eq!(p.withdrawal(3, B, 100), Err(DispatchError::Module(Error::NoNFT)));
}

#[test]
fn withdrawal_without_bidder_fails() {
    let mut p = ledger(4);
    p.mint(1, A, 0).unwrap();
    let before = p.clone();
    assert_eq!(p.withdrawal(1, A, 100), Err(DispatchError::Module(Error::NoBidder)));
    assert_eq!(p, before);
}

#[test]
fn winner_with_full_list_cannot_settle() {
    let mut p = ledger(1);
    p.mint(1, A, 0).unwrap();
    p.mint(2, B, 0).unwrap();
    p.bid(2, A, 10, 1).unwrap();
    assert_eq!(p.withdrawal(1, A, 100), Err(DispatchError::Module(Error::TooManyOwned)));
    assert!(!p.nfts(A).unwrap().settle);
}

#[test]
fn open_auction_cannot_be_settled() {
    let mut p = ledger(4);
    p.mint(1, A, 0).unwrap();
    p.bid(2, A, 10, 50).unwrap();
    assert!(p.clone().bid(3, A, 11, 50).is_ok());
    assert!(p.settle_nft(1, A, 50).is_err());
}

#[test]
fn genesis_with_repeated_dna_is_invalid() {
    let p = ledger(4);
    let genesis = GenesisConfig { nfts: vec![(1, A), (2, A), (3, B)] };
    assert!(!genesis.is_valid(&p));
}

#[test]
fn genesis_with_known_dna_is_invalid() {
    let mut p = ledger(4);
    p.mint(9, B, 0).unwrap();
    assert!(!GenesisConfig { nfts: vec![(1, A), (3, B)] }.is_valid(&p));
    assert!(GenesisConfig { nfts: vec![(1, A)] }.is_valid(&p));
}

#[test]
fn genesis_over_the_limit_is_invalid() {
    let mut p = ledger(2);
    let over = GenesisConfig { nfts: vec![(1, A), (2, B), (1, *b"cccccccccccccccc")] };
    assert!(over.is_valid(&p));
    p.mint(1, *b"dddddddddddddddd", 0).unwrap();
    assert!(!over.is_valid(&p));
    let three = GenesisConfig {
        nfts: vec![(5, A), (5, B), (5, *b"cccccccccccccccc")],
    };
    assert!(!three.is_valid(&ledger(2)));
}

#[test]
fn valid_genesis_mints_every_entry_in_order() {
    let mut p = ledger(4);
    let genesis = GenesisConfig { nfts: vec![(1, A), (2, B), (1, *b"cccccccccccccccc")] };
    assert!(genesis.is_valid(&p));
    assert_eq!(genesis.build(&mut p, 0), Ok(()));
    assert_eq!(p.nft_cnt(), 3);
    assert_eq!(p.nfts_owned(1), vec![A, *b"cccccccccccccccc"]);
    assert_eq!(p.nfts_owned(2), vec![B]);
    assert_eq!(p.nfts(B).unwrap().owner, 2);
}

#[test]
fn default_genesis_is_empty() {
    let genesis = GenesisConfig::default();
    assert!(genesis.nfts.is_empty());
    let mut p = ledger(4);
    assert!(genesis.is_valid(&p));
    assert_eq!(genesis.build(&mut p, 0), Ok(()));
    assert_eq!(p.nft_cnt(), 0);
}

#[test]
fn every_success_reports_one_event() {
    let mut p = ledger(4);
    p.mint(1, A, 1).unwrap();
    assert_eq!(p.events().len(), 1);
    p.bid(2, A, 5, 1).unwrap();
    assert_eq!(p.events().len(), 2);
    assert!(p.bid(1, A, 6, 1).is_err());
    assert_eq!(p.events().len(), 2);
    p.settle_nft(1, A, 101).unwrap();
    assert_eq!(p.events().len(), 3);
}

#[test]
fn genesis_block_keeps_no_event() {
    let mut p = ledger(4);
    p.mint(1, A, 0).unwrap();
    assert_eq!(p.events(), Vec::<Event>::new());
    let genesis = GenesisConfig { nfts: vec![(2, B)] };
    genesis.build(&mut p, 0).unwrap();
    assert_eq!(p.events(), Vec::<Event>::new());
    assert_eq!(p.nft_cnt(), 2);
    p.bid(2, A, 3, 1).unwrap();
    assert_eq!(p.events(), vec![Event::Bidded { nft: A, bidder: 2, bid_price: 3 }]);
}

#[test]
fn settlement_swaps_the_last_nft_into_the_gap() {
    let c: Dna = *b"cccccccccccccccc";
    let mut p = ledger(4);
    p.mint(1, A, 1).unwrap();
    p.mint(1, B, 1).unwrap();
    p.mint(1, c, 1).unwrap();
    p.bid(2, A, 7, 2).unwrap();
    assert!(p.settle_nft(1, A, 101).is_ok());
    assert_eq!(p.nfts_owned(1), vec![c, B]);
    assert_eq!(p.nfts_owned(2), vec![A]);
    assert_eq!(p.nfts(A).unwrap().owner, 2);
    assert_eq!(p.nfts(B).unwrap().owner, 1);
    let mut entries = p.owned_entries();
    entries.sort();
    assert_eq!(entries, vec![(1, vec![c, B]), (2, vec![A])]);
}

#[test]
fn new_owner_cannot_settle_again_or_be_outbid_into_a_second_payment() {
    let mut p = ledger(4);
    p.mint(1, A, 1).unwrap();
    p.bid(2, A, 7, 2).unwrap();
    p.withdrawal(1, A, 101).unwrap();
    assert_eq!(p.withdrawal(2, A, 102), Err(DispatchError::Module(Error::NFTSettled)));
    assert_eq!(p.settle_nft(1, A, 103), Err(DispatchError::Module(Error::NFTSettled)));
    let mut candidates = p.settlement_candidates();
    candidates.sort();
    assert_eq!(candidates, vec![(2, A)]);
}
