use pallet_nft::{AccountId, Config, DispatchError, Dna, Error, GenesisConfig, Pallet};

const MAX_NFTS_OWNED: u32 = 100;
const RANDOM_SEED: [u8; 32] = [7u8; 32];

// Genesis runs at block 0; the tests then start at block 1.
fn new_test_ext(nfts: Vec<(AccountId, Dna)>) -> Pallet {
    let mut pallet = Pallet::new(Config { max_nfts_owned: MAX_NFTS_OWNED });
    let genesis = GenesisConfig { nfts };
    assert!(genesis.is_valid(&pallet));
    assert!(genesis.build(&mut pallet, 0).is_ok());
    pallet
}

// Checks that `owner` owns `nft_id` and that no other account lists it.
fn assert_ownership(pallet: &Pallet, owner: AccountId, nft_id: Dna) {
    let nft = pallet.nfts(nft_id).unwrap();
    assert_eq!(nft.owner, owner);
    for (check_owner, owned) in pallet.owned_entries() {
        if owner == check_owner {
            assert!(owned.contains(&nft_id));
        } else {
            assert!(!owned.contains(&nft_id));
        }
    }
}

#[test]
fn should_build_genesis_nft() {
    let pallet = new_test_ext(vec![(1, *b"1234567890123456"), (2, *b"123456789012345a")]);
    assert_eq!(pallet.nft_cnt(), 2);

    let nfts_owned_by_1 = pallet.nfts_owned(1);
    assert_eq!(nfts_owned_by_1.len(), 1);

    let nfts_owned_by_2 = pallet.nfts_owned(2);
    assert_eq!(nfts_owned_by_2.len(), 1);

    let nft_1 = nfts_owned_by_1[0];
    assert_ownership(&pallet, 1, nft_1);

    let nft_2 = nfts_owned_by_2[0];
    assert_ownership(&pallet, 2, nft_2);
}

#[test]
fn create_nft_should_work() {
    let mut pallet = new_test_ext(vec![]);
    let block = 1;
    assert_eq!(pallet.create_nft(10, RANDOM_SEED, None, block), Ok(()));

    assert_eq!(pallet.nft_cnt(), 1);

    let nfts_owned = pallet.nfts_owned(10);
    assert_eq!(nfts_owned.len(), 1);
    let id = nfts_owned.last().unwrap();
    assert_ownership(&pallet, 10, *id);

    // A second NFT in the same block differs by the extrinsic index.
    assert_eq!(pallet.create_nft(10, RANDOM_SEED, Some(1), block), Ok(()));
}

#[test]
fn create_nft_fails() {
    let mut pallet = new_test_ext(vec![]);
    let mut block = 1;
    for _i in 0..MAX_NFTS_OWNED {
        assert_eq!(pallet.create_nft(10, RANDOM_SEED, None, block), Ok(()));
        block += 1;
    }

    let before = pallet.clone();
    assert_eq!(
        pallet.create_nft(10, RANDOM_SEED, None, block),
        Err(DispatchError::Module(Error::TooManyOwned))
    );
    assert_eq!(pallet, before);

    let id = [0u8; 16];
    assert_eq!(pallet.mint(1, id, block), Ok(id));

    let before = pallet.clone();
    assert_eq!(pallet.mint(1, id, block), Err(DispatchError::Module(Error::DuplicateNFT)));
    assert_eq!(pallet, before);
}

#[test]
fn bid_nft_should_work() {
    let mut pallet = new_test_ext(vec![(1, *b"1234567890123456")]);
    assert!(pallet.bid(10, *b"1234567890123456", 10, 1).is_ok());

    let nft = pallet.nfts(*b"1234567890123456").unwrap();
    assert_eq!(10, nft.bidder.unwrap());
}

#[test]
fn bid_nft_fail() {
    let mut pallet = new_test_ext(vec![(1, *b"1234567890123456")]);
    let before = pallet.clone();
    assert_eq!(
        pallet.bid(1, *b"1234567890123456", 10, 1),
        Err(DispatchError::Module(Error::SameBidderOwner))
    );
    assert_eq!(pallet, before);
}

#[test]
fn withdrawal_nft_should_work() {
    let mut pallet = new_test_ext(vec![(1, *b"1234567890123456"), (2, *b"123456789012345a")]);
    let mut block = 1;
    assert!(pallet.bid(2, *b"1234567890123456", 1, block).is_ok());

    block += 200;

    assert!(pallet.withdrawal(1, *b"1234567890123456", block).is_ok());
}

#[test]
fn withdrawal_nft_fail() {
    let mut pallet = new_test_ext(vec![(1, *b"1234567890123456"), (2, *b"123456789012345a")]);
    let block = 1;
    assert!(pallet.bid(2, *b"1234567890123456", 5, block).is_ok());

    let before = pallet.clone();
    assert_eq!(
        pallet.withdrawal(1, *b"1234567890123456", block),
        Err(DispatchError::Module(Error::BidNotClosed))
    );
    assert_eq!(pallet, before);
}
