use vstd::prelude::*;
use crate::types::{AccountId, Balance, BlockNumber, Dna, NFT, Error, DispatchError, CurrencyAction};
use crate::model::{
    PalletState, mint_outcome, bid_check, bid_apply, bid_actions, settle_check, settle_actions,
};
use crate::dna::{u32_le_bytes, u64_le_bytes, dna_payload, blake2_128_digest, spec_gen_dna};

verus! {

broadcast use vstd::seq_lib::group_seq_properties;

/// What a mint does, told by its inputs: a known DNA is refused with
/// `DuplicateNFT`; when the count of NFTs is full it fails with `Overflow`;
/// an owner with a full list is refused with `TooManyOwned`; otherwise the
/// NFT is recorded for `owner`, unbid and unsettled, with an auction that
/// ends exactly 100 blocks after `now`, appended to the owner's list and
/// counted. A refused mint changes nothing.
pub proof fn law_mint_behaviour(s: PalletState, owner: AccountId, dna: Dna, now: BlockNumber, who: AccountId, k: Dna)
    requires
        s.inv(),
        now + 100 <= u64::MAX,
    ensures
        ({
            let (t, r) = mint_outcome(s, owner, dna, now);
            &&& s.nfts.contains_key(dna) ==> r == Err::<Dna, DispatchError>(DispatchError::Module(Error::DuplicateNFT)) && t == s
            &&& !s.nfts.contains_key(dna) && s.count == u64::MAX ==> r == Err::<Dna, DispatchError>(DispatchError::Overflow) && t == s
            &&& !s.nfts.contains_key(dna) && s.count < u64::MAX && s.owned_of(owner).len() >= s.max_nfts_owned
                ==> r == Err::<Dna, DispatchError>(DispatchError::Module(Error::TooManyOwned)) && t == s
            &&& !s.nfts.contains_key(dna) && s.count < u64::MAX && s.owned_of(owner).len() < s.max_nfts_owned ==> {
                &&& r == Ok::<Dna, DispatchError>(dna)
                &&& t.nfts.contains_key(dna)
                &&& t.nfts[dna] == NFT { dna, bid_price: None, bidder: None, owner, end: (now + 100) as u64, settle: false }
                &&& t.nfts[dna].end - now == 100
                &&& t.count == s.count + 1
                &&& t.owned_of(owner) == s.owned_of(owner).push(dna)
                &&& (who != owner ==> t.owned_of(who) == s.owned_of(who))
                &&& (k != dna ==> (t.nfts.contains_key(k) <==> s.nfts.contains_key(k)))
                &&& (k != dna && s.nfts.contains_key(k) ==> t.nfts[k] == s.nfts[k])
            }
        }),
{
}

/// What a bid does, told by its inputs: a missing NFT is refused with
/// `NoNFT`, its owner with `SameBidderOwner`; from the end of the auction
/// on every bid, first or not, is refused with `BidClosed`; a bid that does
/// not exceed the previous one is refused with `BidPriceTooLow`; any other
/// bid is accepted. An accepted bid records exactly `price` and `sender`,
/// releases the lock of the bidder it outbids, if any, and locks exactly
/// `price` on `sender`.
pub proof fn law_bid_behaviour(s: PalletState, sender: AccountId, nft_id: Dna, price: Balance, now: BlockNumber)
    requires
        s.inv(),
    ensures
        !s.nfts.contains_key(nft_id) ==> bid_check(s, sender, nft_id, price, now) == Err::<(), DispatchError>(
            DispatchError::Module(Error::NoNFT),
        ),
        s.nfts.contains_key(nft_id) && sender == s.nfts[nft_id].owner ==> bid_check(s, sender, nft_id, price, now)
            == Err::<(), DispatchError>(DispatchError::Module(Error::SameBidderOwner)),
        s.nfts.contains_key(nft_id) && sender != s.nfts[nft_id].owner && now >= s.nfts[nft_id].end
            ==> bid_check(s, sender, nft_id, price, now) == Err::<(), DispatchError>(
            DispatchError::Module(Error::BidClosed),
        ),
        s.nfts.contains_key(nft_id) && sender != s.nfts[nft_id].owner && now < s.nfts[nft_id].end
            && s.nfts[nft_id].bid_price is Some && price <= s.nfts[nft_id].bid_price->0
            ==> bid_check(s, sender, nft_id, price, now) == Err::<(), DispatchError>(
            DispatchError::Module(Error::BidPriceTooLow),
        ),
        s.nfts.contains_key(nft_id) && sender != s.nfts[nft_id].owner && now < s.nfts[nft_id].end
            && (s.nfts[nft_id].bid_price is None || price > s.nfts[nft_id].bid_price->0)
            ==> bid_check(s, sender, nft_id, price, now) is Ok,
        bid_check(s, sender, nft_id, price, now) is Ok ==> {
            let t = bid_apply(s, sender, nft_id, price, now);
            let a = bid_actions(s, sender, nft_id, price);
            &&& t.nfts.dom() == s.nfts.dom()
            &&& t.nfts[nft_id] == NFT { bid_price: Some(price), bidder: Some(sender), ..s.nfts[nft_id] }
            &&& t.nfts[nft_id].bid_price == Some(price)
            &&& t.owned == s.owned
            &&& t.count == s.count
            &&& a.len() >= 1
            &&& a.last() == CurrencyAction::SetLock { who: sender, amount: price }
            &&& s.nfts[nft_id].bidder is None ==> a.len() == 1
            &&& s.nfts[nft_id].bidder is Some ==> a.len() == 2 && a[0] == CurrencyAction::RemoveLock {
                who: s.nfts[nft_id].bidder->0,
            }
        },
{
    if s.nfts.contains_key(nft_id) {
        assert(s.nft_ok(nft_id));
    }
    if s.nfts.contains_key(nft_id) {
        assert(bid_apply(s, sender, nft_id, price, now).nfts.dom() =~= s.nfts.dom());
    }
}

/// What a settlement asks of the currency, told by its inputs: a missing
/// NFT is refused with `NoNFT`, a settled one with `NFTSettled`, anyone but
/// its owner with `WithdrawalNotOwner`, an auction before its end with
/// `BidNotClosed`, an auction without bids with `NoBidder`, a winner with a
/// full list with `TooManyOwned`. Any other settlement succeeds, releases
/// the winner's lock and transfers exactly the winning bid from the winner
/// to the owner.
pub proof fn law_settle_behaviour(s: PalletState, owner: AccountId, nft_id: Dna, now: BlockNumber, keep_alive: bool)
    requires
        s.inv(),
    ensures
        !s.nfts.contains_key(nft_id) ==> settle_check(s, owner, nft_id, now) == Err::<(), DispatchError>(
            DispatchError::Module(Error::NoNFT),
        ),
        s.nfts.contains_key(nft_id) && s.nfts[nft_id].settle ==> settle_check(s, owner, nft_id, now)
            == Err::<(), DispatchError>(DispatchError::Module(Error::NFTSettled)),
        s.nfts.contains_key(nft_id) && !s.nfts[nft_id].settle && owner != s.nfts[nft_id].owner
            ==> settle_check(s, owner, nft_id, now) == Err::<(), DispatchError>(
            DispatchError::Module(Error::WithdrawalNotOwner),
        ),
        s.nfts.contains_key(nft_id) && !s.nfts[nft_id].settle && owner == s.nfts[nft_id].owner
            && now < s.nfts[nft_id].end ==> settle_check(s, owner, nft_id, now) == Err::<(), DispatchError>(
            DispatchError::Module(Error::BidNotClosed),
        ),
        s.nfts.contains_key(nft_id) && !s.nfts[nft_id].settle && owner == s.nfts[nft_id].owner
            && now >= s.nfts[nft_id].end && s.nfts[nft_id].bidder is None
            ==> settle_check(s, owner, nft_id, now) == Err::<(), DispatchError>(
            DispatchError::Module(Error::NoBidder),
        ),
        s.nfts.contains_key(nft_id) && !s.nfts[nft_id].settle && owner == s.nfts[nft_id].owner
            && now >= s.nfts[nft_id].end && s.nfts[nft_id].bidder is Some
            && s.owned_of(s.nfts[nft_id].bidder->0).len() >= s.max_nfts_owned
            ==> settle_check(s, owner, nft_id, now) == Err::<(), DispatchError>(
            DispatchError::Module(Error::TooManyOwned),
        ),
        s.nfts.contains_key(nft_id) && !s.nfts[nft_id].settle && owner == s.nfts[nft_id].owner
            && now >= s.nfts[nft_id].end && s.nfts[nft_id].bidder is Some
            && s.owned_of(s.nfts[nft_id].bidder->0).len() < s.max_nfts_owned
            ==> settle_check(s, owner, nft_id, now) is Ok,
        settle_check(s, owner, nft_id, now) is Ok ==> {
            &&& s.nfts[nft_id].bid_price is Some
            &&& s.nfts[nft_id].bidder is Some
            &&& settle_actions(s, owner, nft_id, keep_alive) == seq![
                CurrencyAction::RemoveLock { who: s.nfts[nft_id].bidder->0 },
                CurrencyAction::Transfer {
                    from: s.nfts[nft_id].bidder->0,
                    to: owner,
                    amount: s.nfts[nft_id].bid_price->0,
                    keep_alive,
                },
            ]
        },
{
    if s.nfts.contains_key(nft_id) {
        assert(s.nft_ok(nft_id));
        if owner == s.nfts[nft_id].owner {
            assert(s.owned_of(owner).contains(nft_id));
        }
    }
}

/// The DNA is the Blake2b-128 digest of the whole 32-byte seed, followed
/// by the extrinsic index (zero when there is none) and the block number.
pub proof fn law_gen_dna_behaviour(random: Seq<u8>, extrinsic_index: Option<u32>, block_number: u64)
    ensures
        spec_gen_dna(random, extrinsic_index, block_number) == blake2_128_digest(
            random + u32_le_bytes(if extrinsic_index is Some { extrinsic_index->0 } else { 0u32 })
                + u64_le_bytes(block_number),
        ),
{
}

/// The payload that DNAs are hashed from holds the seed unchanged in its
/// first 32 bytes, then 4 bytes that read back, little-endian, as the
/// extrinsic index, then 8 bytes that read back as the block number.
pub proof fn law_dna_payload_layout(random: Seq<u8>, extrinsic_index: u32, block_number: u64)
    requires
        random.len() == 32,
    ensures
        ({
            let p = dna_payload(random, extrinsic_index, block_number);
            &&& p.len() == 44
            &&& p.subrange(0, 32) == random
            &&& p[32] + 256 * p[33] + 65536 * p[34] + 16777216 * p[35] == extrinsic_index
            &&& p[36] + 0x100 * p[37] + 0x10000 * p[38] + 0x1000000 * p[39] + 0x100000000 * p[40]
                + 0x10000000000 * p[41] + 0x1000000000000 * p[42] + 0x100000000000000 * p[43] == block_number
        }),
{
    let p = dna_payload(random, extrinsic_index, block_number);
    let x = extrinsic_index;
    let b = block_number;
    assert(p.subrange(0, 32) =~= random);
    assert(p[32] == (x >> 0u32) as u8);
    assert(p[33] == (x >> 8u32) as u8);
    assert(p[34] == (x >> 16u32) as u8);
    assert(p[35] == (x >> 24u32) as u8);
    assert(p[36] == (b >> 0u64) as u8);
    assert(p[37] == (b >> 8u64) as u8);
    assert(p[38] == (b >> 16u64) as u8);
    assert(p[39] == (b >> 24u64) as u8);
    assert(p[40] == (b >> 32u64) as u8);
    assert(p[41] == (b >> 40u64) as u8);
    assert(p[42] == (b >> 48u64) as u8);
    assert(p[43] == (b >> 56u64) as u8);
    assert(((x >> 0u32) as u8) + 256 * ((x >> 8u32) as u8) + 65536 * ((x >> 16u32) as u8) + 16777216 * ((x >> 24u32) as u8)
        == x) by (bit_vector);
    assert(((b >> 0u64) as u8) + 0x100 * ((b >> 8u64) as u8) + 0x10000 * ((b >> 16u64) as u8) + 0x1000000 * ((b >> 24u64) as u8)
        + 0x100000000 * ((b >> 32u64) as u8) + 0x10000000000 * ((b >> 40u64) as u8) + 0x1000000000000 * ((b
        >> 48u64) as u8) + 0x100000000000000 * ((b >> 56u64) as u8) == b) by (bit_vector);
}

} // verus!
