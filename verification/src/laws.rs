use vstd::prelude::*;
use crate::types::{AccountId, Balance, BlockNumber, Dna, NFT, Event, Error, DispatchError};
use crate::model::{
    PalletState, Call, call_result, run_calls, minted_nft, mint_check, mint_apply, mint_outcome, bid_check,
    bid_apply, settle_check, settle_apply, lemma_mint_inv, lemma_bid_inv, lemma_settle_inv,
    swap_remove_value, lemma_swap_remove_value, position_of,
};
use crate::pallet::Pallet;

verus! {

broadcast use vstd::seq_lib::group_seq_properties;

/// An account owns an NFT exactly when the NFT exists and names that
/// account as its owner: no other account lists it.
pub proof fn law_ownership(p: &Pallet, who: AccountId, dna: Dna)
    requires
        p.wf(),
    ensures
        p@.owned_of(who).contains(dna) <==> (p@.nfts.contains_key(dna) && p@.nfts[dna].owner == who),
{
}

/// The count of NFTs is the number of NFTs the ledger holds.
pub proof fn law_count_matches_nfts(p: &Pallet)
    requires
        p.wf(),
    ensures
        p@.nfts.dom().finite(),
        p@.count == p@.nfts.dom().len(),
{
}

/// No account owns more NFTs than the maximum, and none twice.
pub proof fn law_owned_bounded(p: &Pallet, who: AccountId)
    requires
        p.wf(),
    ensures
        p@.owned_of(who).len() <= p@.max_nfts_owned,
        p@.owned_of(who).no_duplicates(),
{
}

/// An NFT has a bid price exactly when it has a bidder, while its auction
/// is unsettled its owner is not its bidder, and it is settled only if
/// somebody bid on it.
pub proof fn law_bid_consistency(p: &Pallet, dna: Dna)
    requires
        p.wf(),
        p@.nfts.contains_key(dna),
    ensures
        p@.nfts[dna].dna == dna,
        p@.nfts[dna].bid_price is Some <==> p@.nfts[dna].bidder is Some,
        !p@.nfts[dna].settle ==> (p@.nfts[dna].bidder matches Some(b) ==> b != p@.nfts[dna].owner),
        p@.nfts[dna].settle ==> p@.nfts[dna].bidder is Some,
{
    assert(p@.nft_ok(dna));
}

/// Once an NFT is minted its DNA is taken: minting it again fails.
pub proof fn law_dna_taken(s: PalletState, owner: AccountId, dna: Dna, now: BlockNumber, other: AccountId)
    requires
        s.inv(),
        mint_check(s, owner, dna) is Ok,
    ensures
        mint_check(mint_apply(s, owner, dna, now), other, dna) == Err::<(), DispatchError>(
            DispatchError::Module(Error::DuplicateNFT),
        ),
{
}

/// A successful mint records the new NFT under its DNA, adds it to the
/// owner's list and counts it.
pub proof fn law_mint_registers(s: PalletState, owner: AccountId, dna: Dna, now: BlockNumber)
    requires
        s.inv(),
        mint_check(s, owner, dna) is Ok,
    ensures
        mint_apply(s, owner, dna, now).nfts.contains_key(dna),
        mint_apply(s, owner, dna, now).nfts[dna] == minted_nft(owner, dna, now),
        mint_apply(s, owner, dna, now).owned_of(owner).contains(dna),
        mint_apply(s, owner, dna, now).owned_of(owner).len() == s.owned_of(owner).len() + 1,
        mint_apply(s, owner, dna, now).count == s.count + 1,
{
    assert(mint_apply(s, owner, dna, now).owned_of(owner).last() == dna);
}

/// While an auction still takes bids it cannot be settled.
pub proof fn law_open_auction_not_settled(
    s: PalletState,
    bidder: AccountId,
    nft_id: Dna,
    price: Balance,
    now: BlockNumber,
    owner: AccountId,
)
    requires
        s.inv(),
        bid_check(s, bidder, nft_id, price, now) is Ok,
    ensures
        settle_check(s, owner, nft_id, now) is Err,
{
}

/// A bid neither adds nor removes NFTs, changes no owner and leaves every
/// list of owned NFTs as it was.
pub proof fn law_bid_keeps_owners(
    s: PalletState,
    bidder: AccountId,
    nft_id: Dna,
    price: Balance,
    now: BlockNumber,
    k: Dna,
)
    requires
        s.inv(),
        s.nfts.contains_key(nft_id),
    ensures
        bid_apply(s, bidder, nft_id, price, now).nfts.dom() == s.nfts.dom(),
        bid_apply(s, bidder, nft_id, price, now).owned == s.owned,
        s.nfts.contains_key(k) ==> bid_apply(s, bidder, nft_id, price, now).nfts[k].owner == s.nfts[k].owner,
{
    assert(bid_apply(s, bidder, nft_id, price, now).nfts.dom() =~= s.nfts.dom());
}

/// A settlement hands the NFT to the highest bidder: the NFT names the
/// winner as owner and is settled, it leaves the owner's list (the last
/// element takes its place) and is appended to the winner's list; no other
/// NFT and no other account's list changes.
pub proof fn law_settlement_moves_nft(
    s: PalletState,
    owner: AccountId,
    nft_id: Dna,
    now: BlockNumber,
    who: AccountId,
    k: Dna,
)
    requires
        s.inv(),
        settle_check(s, owner, nft_id, now) is Ok,
    ensures
        ({
            let winner = s.nfts[nft_id].bidder->0;
            let t = settle_apply(s, owner, nft_id, now);
            &&& winner != owner
            &&& t.nfts.dom() == s.nfts.dom()
            &&& t.nfts[nft_id] == NFT { owner: winner, settle: true, ..s.nfts[nft_id] }
            &&& (k != nft_id && s.nfts.contains_key(k) ==> t.nfts[k] == s.nfts[k])
            &&& t.owned_of(owner) == swap_remove_value(s.owned_of(owner), nft_id)
            &&& exists|i: int| 0 <= i < s.owned_of(owner).len() && s.owned_of(owner)[i] == nft_id
                && t.owned_of(owner) == s.owned_of(owner).update(i, s.owned_of(owner).last()).drop_last()
            &&& !t.owned_of(owner).contains(nft_id)
            &&& t.owned_of(owner).len() == s.owned_of(owner).len() - 1
            &&& t.owned_of(winner) == s.owned_of(winner).push(nft_id)
            &&& (who != owner && who != winner ==> t.owned_of(who) == s.owned_of(who))
            &&& t.count == s.count
        }),
{
    let winner = s.nfts[nft_id].bidder->0;
    let t = settle_apply(s, owner, nft_id, now);
    assert(s.nft_ok(nft_id));
    if s.owned.contains_key(owner) {
        assert(s.owned_of(owner).no_duplicates());
    }
    lemma_swap_remove_value(s.owned_of(owner), nft_id);
    let pos = position_of(s.owned_of(owner), nft_id);
    assert(0 <= pos < s.owned_of(owner).len() && s.owned_of(owner)[pos] == nft_id);
    assert(t.nfts.dom() =~= s.nfts.dom());
}

/// An auction that is due, was bid on and whose winner has room for one
/// more NFT is settled by its owner at any block from its end on: this is
/// what the end of each block does for every NFT that
/// `settlement_candidates` lists.
pub proof fn law_due_auction_settles(s: PalletState, nft_id: Dna, block_number: BlockNumber)
    requires
        s.inv(),
        s.nfts.contains_key(nft_id),
        !s.nfts[nft_id].settle,
        block_number >= s.nfts[nft_id].end,
        s.nfts[nft_id].bidder is Some,
        s.owned_of(s.nfts[nft_id].bidder->0).len() < s.max_nfts_owned,
    ensures
        settle_check(s, s.nfts[nft_id].owner, nft_id, block_number) is Ok,
{
    assert(s.nft_ok(nft_id));
}

/// Each successful mint, bid or settlement reports exactly one event, at
/// every block but the genesis block, and keeps every earlier one.
pub proof fn law_one_event_each(
    s: PalletState,
    who: AccountId,
    nft_id: Dna,
    price: Balance,
    now: BlockNumber,
)
    ensures
        mint_apply(s, who, nft_id, now).events == if now == 0 { s.events } else { s.events.push(Event::Created { nft: nft_id, owner: who }) },
        bid_apply(s, who, nft_id, price, now).events.len() == s.events.len() + if now == 0 { 0int } else { 1int },
        bid_apply(s, who, nft_id, price, now).events.take(s.events.len() as int) == s.events,
        settle_apply(s, who, nft_id, now).events.len() == s.events.len() + if now == 0 { 0int } else { 1int },
        settle_apply(s, who, nft_id, now).events.take(s.events.len() as int) == s.events,
        now != 0 ==> bid_apply(s, who, nft_id, price, now).events.last() == (Event::Bidded {
            nft: nft_id,
            bidder: who,
            bid_price: price,
        }),
        now != 0 ==> settle_apply(s, who, nft_id, now).events.last() == (Event::Withdrawal {
            nft: nft_id,
            from: who,
            to: s.nfts[nft_id].bidder->0,
        }),
{
    assert(bid_apply(s, who, nft_id, price, now).events.take(s.events.len() as int) =~= s.events);
    assert(settle_apply(s, who, nft_id, now).events.take(s.events.len() as int) =~= s.events);
}

/// Every call, whether it succeeds or fails, keeps the invariant.
pub proof fn law_call_keeps_inv(s: PalletState, c: Call)
    requires
        s.inv(),
    ensures
        call_result(s, c).inv(),
{
    match c {
        Call::Mint { owner, dna, now } => {
            if mint_check(s, owner, dna) is Ok {
                lemma_mint_inv(s, owner, dna, now);
            }
        },
        Call::Bid { sender, nft_id, price, now } => {
            if bid_check(s, sender, nft_id, price, now) is Ok {
                lemma_bid_inv(s, sender, nft_id, price, now);
            }
        },
        Call::Settle { owner, nft_id, now } => {
            if settle_check(s, owner, nft_id, now) is Ok {
                lemma_settle_inv(s, owner, nft_id, now);
            }
        },
    }
}

/// Every sequence of calls keeps the invariant.
pub proof fn law_calls_keep_inv(s: PalletState, calls: Seq<Call>)
    requires
        s.inv(),
    ensures
        run_calls(s, calls).inv(),
    decreases calls.len(),
{
    if calls.len() > 0 {
        law_call_keeps_inv(s, calls[0]);
        law_calls_keep_inv(call_result(s, calls[0]), calls.drop_first());
    }
}

/// A mint, whether it succeeds or fails, keeps the count of NFTs equal to
/// the number of NFTs.
pub proof fn law_mint_keeps_count(s: PalletState, owner: AccountId, dna: Dna, now: BlockNumber)
    requires
        s.inv(),
    ensures
        mint_outcome(s, owner, dna, now).0.nfts.dom().finite(),
        mint_outcome(s, owner, dna, now).0.count == mint_outcome(s, owner, dna, now).0.nfts.dom().len(),
{
    law_call_keeps_inv(s, Call::Mint { owner, dna, now });
}

/// A mint, whether it succeeds or fails, keeps ownership consistent: an
/// account lists an NFT exactly when the NFT exists and names it as
/// owner, and no list holds an NFT twice.
pub proof fn law_mint_keeps_ownership(s: PalletState, owner: AccountId, dna: Dna, now: BlockNumber, who: AccountId, k: Dna)
    requires
        s.inv(),
    ensures
        mint_outcome(s, owner, dna, now).0.owned_of(who).contains(k) <==> (
            mint_outcome(s, owner, dna, now).0.nfts.contains_key(k)
            && mint_outcome(s, owner, dna, now).0.nfts[k].owner == who),
        mint_outcome(s, owner, dna, now).0.owned_of(who).no_duplicates(),
{
    let t = mint_outcome(s, owner, dna, now).0;
    law_call_keeps_inv(s, Call::Mint { owner, dna, now });
    assert(t.owned_of(who).contains(k) <==> (t.nfts.contains_key(k) && t.nfts[k].owner == who));
    if t.owned.contains_key(who) {
        assert(t.owned[who].no_duplicates());
    } else {
        assert(t.owned_of(who).no_duplicates());
    }
}

proof fn lemma_call_keeps_settled(s: PalletState, c: Call, nft_id: Dna)
    requires
        s.inv(),
        s.nfts.contains_key(nft_id),
        s.nfts[nft_id].settle,
    ensures
        call_result(s, c).nfts.contains_key(nft_id),
        call_result(s, c).nfts[nft_id].settle,
{
}

/// Once settled, an auction stays settled whatever calls follow, and
/// every later attempt to settle it fails with `NFTSettled`.
pub proof fn law_settled_stays_settled(s: PalletState, calls: Seq<Call>, nft_id: Dna, caller: AccountId, later: BlockNumber)
    requires
        s.inv(),
        s.nfts.contains_key(nft_id),
        s.nfts[nft_id].settle,
    ensures
        run_calls(s, calls).nfts.contains_key(nft_id),
        run_calls(s, calls).nfts[nft_id].settle,
        settle_check(run_calls(s, calls), caller, nft_id, later) == Err::<(), DispatchError>(
            DispatchError::Module(Error::NFTSettled),
        ),
    decreases calls.len(),
{
    if calls.len() > 0 {
        lemma_call_keeps_settled(s, calls[0], nft_id);
        law_call_keeps_inv(s, calls[0]);
        law_settled_stays_settled(call_result(s, calls[0]), calls.drop_first(), nft_id, caller, later);
    }
}

/// The price of an auction is paid at most once: after a successful
/// settlement, whatever calls follow, settling it again fails with
/// `NFTSettled`.
pub proof fn law_paid_at_most_once(
    s: PalletState,
    owner: AccountId,
    nft_id: Dna,
    now: BlockNumber,
    calls: Seq<Call>,
    caller: AccountId,
    later: BlockNumber,
)
    requires
        s.inv(),
        settle_check(s, owner, nft_id, now) is Ok,
    ensures
        settle_check(run_calls(settle_apply(s, owner, nft_id, now), calls), caller, nft_id, later)
            == Err::<(), DispatchError>(DispatchError::Module(Error::NFTSettled)),
{
    law_call_keeps_inv(s, Call::Settle { owner, nft_id, now });
    law_settled_stays_settled(settle_apply(s, owner, nft_id, now), calls, nft_id, caller, later);
}

proof fn lemma_call_keeps_price(s: PalletState, c: Call, nft_id: Dna, price: Balance)
    requires
        s.inv(),
        s.nfts.contains_key(nft_id),
        s.nfts[nft_id].bid_price == Some(price),
    ensures
        call_result(s, c).nfts.contains_key(nft_id),
        call_result(s, c).nfts[nft_id].bid_price matches Some(q) && q >= price,
{
}

/// The highest bid on an NFT never falls and is never cleared, whatever
/// calls follow.
pub proof fn law_bid_price_never_falls(s: PalletState, calls: Seq<Call>, nft_id: Dna, price: Balance)
    requires
        s.inv(),
        s.nfts.contains_key(nft_id),
        s.nfts[nft_id].bid_price == Some(price),
    ensures
        run_calls(s, calls).nfts.contains_key(nft_id),
        run_calls(s, calls).nfts[nft_id].bid_price matches Some(q) && q >= price,
    decreases calls.len(),
{
    if calls.len() > 0 {
        lemma_call_keeps_price(s, calls[0], nft_id, price);
        law_call_keeps_inv(s, calls[0]);
        let t = call_result(s, calls[0]);
        let q = t.nfts[nft_id].bid_price->0;
        law_bid_price_never_falls(t, calls.drop_first(), nft_id, q);
    }
}

/// Every bid accepted on an NFT, after whatever calls, is higher than any
/// bid accepted on it before.
pub proof fn law_bids_increase(
    s: PalletState,
    first: AccountId,
    nft_id: Dna,
    first_price: Balance,
    now: BlockNumber,
    calls: Seq<Call>,
    second: AccountId,
    second_price: Balance,
    later: BlockNumber,
)
    requires
        s.inv(),
        bid_check(s, first, nft_id, first_price, now) is Ok,
        bid_check(run_calls(bid_apply(s, first, nft_id, first_price, now), calls), second, nft_id, second_price, later) is Ok,
    ensures
        second_price > first_price,
{
    law_call_keeps_inv(s, Call::Bid { sender: first, nft_id, price: first_price, now });
    law_bid_price_never_falls(bid_apply(s, first, nft_id, first_price, now), calls, nft_id, first_price);
}

} // verus!
