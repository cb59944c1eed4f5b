use vstd::prelude::*;
use crate::types::{AccountId, Balance, BlockNumber, Dna, NFT, Event, Error, DispatchError, CurrencyAction, BLOCK_DELAY};

verus! {

broadcast use vstd::seq_lib::group_seq_properties;

/// The abstract state of the ledger.
pub struct PalletState {
    /// How many NFTs were ever minted.
    pub count: u64,
    /// Every NFT, keyed by its DNA.
    pub nfts: Map<Dna, NFT>,
    /// The NFTs that each account owns; an account without an entry owns none.
    pub owned: Map<AccountId, Seq<Dna>>,
    /// Every event reported so far, oldest first.
    pub events: Seq<Event>,
    /// How many NFTs one account may own.
    pub max_nfts_owned: u32,
}

impl PalletState {
    /// The NFTs that `who` owns.
    pub open spec fn owned_of(self, who: AccountId) -> Seq<Dna> {
        if self.owned.contains_key(who) {
            self.owned[who]
        } else {
            Seq::empty()
        }
    }

    /// What holds of every NFT the ledger knows: it is stored under its own
    /// DNA, it has a bid price exactly when it has a bidder, while its
    /// auction is unsettled its owner is not its bidder, and it is settled
    /// only once somebody bid.
    pub open spec fn nft_ok(self, k: Dna) -> bool {
        let n = self.nfts[k];
        &&& n.dna == k
        &&& (n.bid_price is Some <==> n.bidder is Some)
        &&& (!n.settle ==> (n.bidder matches Some(b) ==> b != n.owner))
        &&& (n.settle ==> n.bidder is Some)
    }

    /// The invariant of the ledger.
    pub open spec fn inv(self) -> bool {
        &&& self.nfts.dom().finite()
        &&& self.count == self.nfts.dom().len()
        &&& forall|k: Dna| #[trigger] self.nfts.contains_key(k) ==> self.nft_ok(k)
        &&& forall|a: AccountId| #[trigger] self.owned.contains_key(a) ==> {
            &&& self.owned[a].len() <= self.max_nfts_owned
            &&& self.owned[a].no_duplicates()
        }
        &&& forall|a: AccountId, k: Dna| #[trigger] self.owned_of(a).contains(k) <==> (
            self.nfts.contains_key(k) && self.nfts[k].owner == a)
    }

    /// The ledger with no NFT and no event.
    pub open spec fn empty(max_nfts_owned: u32) -> PalletState {
        PalletState {
            count: 0,
            nfts: Map::empty(),
            owned: Map::empty(),
            events: Seq::empty(),
            max_nfts_owned,
        }
    }
}

/// The event log after `e` is reported at block `now`; the chain keeps no
/// event reported at block 0, its genesis.
pub open spec fn record_event(events: Seq<Event>, now: BlockNumber, e: Event) -> Seq<Event> {
    if now == 0 {
        events
    } else {
        events.push(e)
    }
}

/// The position of `x` in `s`.
pub open spec fn position_of(s: Seq<Dna>, x: Dna) -> int {
    choose|i: int| 0 <= i < s.len() && s[i] == x
}

/// `s` without `x`: the last element takes the place of `x`.
pub open spec fn swap_remove_value(s: Seq<Dna>, x: Dna) -> Seq<Dna> {
    s.update(position_of(s, x), s.last()).drop_last()
}

pub proof fn lemma_position_of(s: Seq<Dna>, i: int)
    requires
        s.no_duplicates(),
        0 <= i < s.len(),
    ensures
        position_of(s, s[i]) == i,
{
    let j = position_of(s, s[i]);
    assert(0 <= j < s.len() && s[j] == s[i]);
}

pub proof fn lemma_swap_remove_value(s: Seq<Dna>, x: Dna)
    requires
        s.no_duplicates(),
        s.contains(x),
    ensures
        swap_remove_value(s, x).len() == s.len() - 1,
        swap_remove_value(s, x).no_duplicates(),
        forall|k: Dna| #[trigger] swap_remove_value(s, x).contains(k) <==> (s.contains(k) && k != x),
{
    let p = position_of(s, x);
    let r = swap_remove_value(s, x);
    let n = s.len() - 1;
    assert(0 <= p < s.len() && s[p] == x);
    assert forall|i: int| 0 <= i < r.len() implies #[trigger] r[i] == (if i == p { s[n] } else { s[i] }) by {}
    assert forall|i: int, j: int| 0 <= i < r.len() && 0 <= j < r.len() && i != j implies r[i] != r[j] by {
        let si = if i == p { n } else { i };
        let sj = if j == p { n } else { j };
        assert(r[i] == s[si] && r[j] == s[sj]);
    }
    assert forall|k: Dna| #[trigger] r.contains(k) <==> (s.contains(k) && k != x) by {
        if r.contains(k) {
            let i = choose|i: int| 0 <= i < r.len() && r[i] == k;
            let si = if i == p { n } else { i };
            assert(s[si] == k);
        }
        if s.contains(k) && k != x {
            let i = choose|i: int| 0 <= i < s.len() && s[i] == k;
            if i == n {
                assert(r[p] == k);
            } else {
                assert(r[i] == k);
            }
        }
    }
}

/// The block at which the auction of an NFT minted at block `now` closes.
pub open spec fn auction_end(now: BlockNumber) -> BlockNumber {
    (now + BLOCK_DELAY) as BlockNumber
}

/// The NFT that minting `dna` for `owner` at block `now` creates.
pub open spec fn minted_nft(owner: AccountId, dna: Dna, now: BlockNumber) -> NFT {
    NFT { dna, bid_price: None, bidder: None, owner, end: auction_end(now), settle: false }
}

/// Whether minting `dna` for `owner` succeeds, and the error if not: the
/// DNA must be new, the count of NFTs must not overflow, and the owner must
/// own fewer than the maximum.
pub open spec fn mint_check(s: PalletState, owner: AccountId, dna: Dna) -> Result<(), DispatchError> {
    if s.nfts.contains_key(dna) {
        Err(DispatchError::Module(Error::DuplicateNFT))
    } else if s.count == u64::MAX {
        Err(DispatchError::Overflow)
    } else if s.owned_of(owner).len() >= s.max_nfts_owned {
        Err(DispatchError::Module(Error::TooManyOwned))
    } else {
        Ok(())
    }
}

/// The ledger after a successful mint.
pub open spec fn mint_apply(s: PalletState, owner: AccountId, dna: Dna, now: BlockNumber) -> PalletState {
    PalletState {
        count: (s.count + 1) as u64,
        nfts: s.nfts.insert(dna, minted_nft(owner, dna, now)),
        owned: s.owned.insert(owner, s.owned_of(owner).push(dna)),
        events: record_event(s.events, now, Event::Created { nft: dna, owner }),
        max_nfts_owned: s.max_nfts_owned,
    }
}

/// What minting `dna` for `owner` at block `now` leaves and returns: the
/// ledger after the mint and `Ok(dna)`, or the unchanged ledger and the error.
pub open spec fn mint_outcome(s: PalletState, owner: AccountId, dna: Dna, now: BlockNumber) -> (PalletState, Result<Dna, DispatchError>) {
    match mint_check(s, owner, dna) {
        Ok(_) => (mint_apply(s, owner, dna, now), Ok(dna)),
        Err(e) => (s, Err(e)),
    }
}

/// Whether a bid of `price` by `sender` on `nft_id` at block `now`
/// succeeds, and the error if not.
pub open spec fn bid_check(
    s: PalletState,
    sender: AccountId,
    nft_id: Dna,
    price: Balance,
    now: BlockNumber,
) -> Result<(), DispatchError> {
    if !s.nfts.contains_key(nft_id) {
        Err(DispatchError::Module(Error::NoNFT))
    } else if sender == s.nfts[nft_id].owner {
        Err(DispatchError::Module(Error::SameBidderOwner))
    } else if !(now < s.nfts[nft_id].end) {
        Err(DispatchError::Module(Error::BidClosed))
    } else if s.nfts[nft_id].bid_price matches Some(p) && !(price > p) {
        Err(DispatchError::Module(Error::BidPriceTooLow))
    } else {
        Ok(())
    }
}

/// The ledger after a successful bid: the bid becomes the highest.
pub open spec fn bid_apply(s: PalletState, sender: AccountId, nft_id: Dna, price: Balance, now: BlockNumber) -> PalletState {
    PalletState {
        nfts: s.nfts.insert(nft_id, NFT { bid_price: Some(price), bidder: Some(sender), ..s.nfts[nft_id] }),
        events: record_event(s.events, now, Event::Bidded { nft: nft_id, bidder: sender, bid_price: price }),
        ..s
    }
}

/// What a successful bid asks of the currency: release the lock of the
/// bidder it outbids, if any, then lock the new price on the new bidder.
pub open spec fn bid_actions(s: PalletState, sender: AccountId, nft_id: Dna, price: Balance) -> Seq<CurrencyAction> {
    let lock = CurrencyAction::SetLock { who: sender, amount: price };
    if s.nfts[nft_id].bid_price is Some {
        seq![CurrencyAction::RemoveLock { who: s.nfts[nft_id].bidder->0 }, lock]
    } else {
        seq![lock]
    }
}

/// Whether `owner` may settle the auction of `nft_id` at block `now`, and
/// the error if not.
pub open spec fn settle_check(s: PalletState, owner: AccountId, nft_id: Dna, now: BlockNumber) -> Result<(), DispatchError> {
    if !s.nfts.contains_key(nft_id) {
        Err(DispatchError::Module(Error::NoNFT))
    } else if s.nfts[nft_id].settle {
        Err(DispatchError::Module(Error::NFTSettled))
    } else if owner != s.nfts[nft_id].owner {
        Err(DispatchError::Module(Error::WithdrawalNotOwner))
    } else if !(now >= s.nfts[nft_id].end) {
        Err(DispatchError::Module(Error::BidNotClosed))
    } else if !s.owned_of(owner).contains(nft_id) {
        Err(DispatchError::Module(Error::NoNFT))
    } else if s.nfts[nft_id].bidder is None {
        Err(DispatchError::Module(Error::NoBidder))
    } else if s.nfts[nft_id].bid_price is None {
        Err(DispatchError::Module(Error::NoBidder))
    } else if s.owned_of(s.nfts[nft_id].bidder->0).len() >= s.max_nfts_owned {
        Err(DispatchError::Module(Error::TooManyOwned))
    } else {
        Ok(())
    }
}

/// The ledger after a successful settlement: the NFT goes to the highest
/// bidder, leaves the owner's list and joins the winner's, and its auction
/// is marked settled.
pub open spec fn settle_apply(s: PalletState, owner: AccountId, nft_id: Dna, now: BlockNumber) -> PalletState {
    let winner = s.nfts[nft_id].bidder->0;
    PalletState {
        nfts: s.nfts.insert(nft_id, NFT { settle: true, owner: winner, ..s.nfts[nft_id] }),
        owned: s.owned.insert(owner, swap_remove_value(s.owned_of(owner), nft_id)).insert(
            winner,
            s.owned_of(winner).push(nft_id),
        ),
        events: record_event(s.events, now, Event::Withdrawal { nft: nft_id, from: owner, to: winner }),
        ..s
    }
}

/// What a successful settlement asks of the currency: release the
/// winner's lock, then pay the winning price from the winner to the owner.
pub open spec fn settle_actions(s: PalletState, owner: AccountId, nft_id: Dna, keep_alive: bool) -> Seq<CurrencyAction> {
    let winner = s.nfts[nft_id].bidder->0;
    seq![
        CurrencyAction::RemoveLock { who: winner },
        CurrencyAction::Transfer { from: winner, to: owner, amount: s.nfts[nft_id].bid_price->0, keep_alive },
    ]
}

/// A call that changes the ledger: a mint (also what `create_nft` and the
/// genesis build do), a bid, or a settlement (by `withdrawal` or
/// `settle_nft`, which change the ledger alike).
pub enum Call {
    Mint { owner: AccountId, dna: Dna, now: BlockNumber },
    Bid { sender: AccountId, nft_id: Dna, price: Balance, now: BlockNumber },
    Settle { owner: AccountId, nft_id: Dna, now: BlockNumber },
}

/// The ledger after `c`, whether it succeeds or fails.
pub open spec fn call_result(s: PalletState, c: Call) -> PalletState {
    match c {
        Call::Mint { owner, dna, now } => mint_outcome(s, owner, dna, now).0,
        Call::Bid { sender, nft_id, price, now } => if bid_check(s, sender, nft_id, price, now) is Ok {
            bid_apply(s, sender, nft_id, price, now)
        } else {
            s
        },
        Call::Settle { owner, nft_id, now } => if settle_check(s, owner, nft_id, now) is Ok {
            settle_apply(s, owner, nft_id, now)
        } else {
            s
        },
    }
}

/// The ledger after the calls of `calls`, in order.
pub open spec fn run_calls(s: PalletState, calls: Seq<Call>) -> PalletState
    decreases calls.len(),
{
    if calls.len() == 0 {
        s
    } else {
        run_calls(call_result(s, calls[0]), calls.drop_first())
    }
}

pub proof fn lemma_empty_inv(max_nfts_owned: u32)
    ensures
        PalletState::empty(max_nfts_owned).inv(),
{
    let s = PalletState::empty(max_nfts_owned);
    assert(s.nfts.dom() =~= Set::empty());
}

pub proof fn lemma_mint_inv(s: PalletState, owner: AccountId, dna: Dna, now: BlockNumber)
    requires
        s.inv(),
        mint_check(s, owner, dna) is Ok,
    ensures
        mint_apply(s, owner, dna, now).inv(),
{
    let t = mint_apply(s, owner, dna, now);
    assert(t.nfts.dom() =~= s.nfts.dom().insert(dna));
    assert forall|k: Dna| #[trigger] t.nfts.contains_key(k) implies t.nft_ok(k) by {
        if k != dna {
            assert(s.nft_ok(k));
        }
    }
    assert(!s.owned_of(owner).contains(dna));
    assert forall|a: AccountId| #[trigger] t.owned.contains_key(a) implies {
        &&& t.owned[a].len() <= t.max_nfts_owned
        &&& t.owned[a].no_duplicates()
    } by {
        if a == owner {
            let o = s.owned_of(owner);
            assert forall|i: int, j: int| 0 <= i < o.push(dna).len() && 0 <= j < o.push(dna).len() && i != j
                implies o.push(dna)[i] != o.push(dna)[j] by {
                if i == o.len() {
                    assert(o.contains(o[j]));
                } else if j == o.len() {
                    assert(o.contains(o[i]));
                }
            }
        }
    }
    assert forall|a: AccountId, k: Dna| #[trigger] t.owned_of(a).contains(k) <==> (
        t.nfts.contains_key(k) && t.nfts[k].owner == a) by {
        if a == owner {
            assert(t.owned_of(a) == s.owned_of(owner).push(dna));
        } else {
            assert(t.owned_of(a) == s.owned_of(a));
        }
    }
}

pub proof fn lemma_bid_inv(s: PalletState, sender: AccountId, nft_id: Dna, price: Balance, now: BlockNumber)
    requires
        s.inv(),
        bid_check(s, sender, nft_id, price, now) is Ok,
    ensures
        bid_apply(s, sender, nft_id, price, now).inv(),
{
    let t = bid_apply(s, sender, nft_id, price, now);
    assert(t.nfts.dom() =~= s.nfts.dom());
    assert forall|k: Dna| #[trigger] t.nfts.contains_key(k) implies t.nft_ok(k) by {
        assert(s.nft_ok(k));
    }
    assert forall|a: AccountId, k: Dna| #[trigger] t.owned_of(a).contains(k) <==> (
        t.nfts.contains_key(k) && t.nfts[k].owner == a) by {
        assert(t.owned_of(a) == s.owned_of(a));
    }
}

pub proof fn lemma_settle_inv(s: PalletState, owner: AccountId, nft_id: Dna, now: BlockNumber)
    requires
        s.inv(),
        settle_check(s, owner, nft_id, now) is Ok,
    ensures
        settle_apply(s, owner, nft_id, now).inv(),
{
    let t = settle_apply(s, owner, nft_id, now);
    let winner = s.nfts[nft_id].bidder->0;
    assert(s.nft_ok(nft_id));
    assert(winner != owner);
    let from = s.owned_of(owner);
    let to = s.owned_of(winner);
    if s.owned.contains_key(owner) {
        assert(from.no_duplicates());
    }
    lemma_swap_remove_value(from, nft_id);
    assert(!to.contains(nft_id));
    assert(t.owned_of(owner) == swap_remove_value(from, nft_id));
    assert(t.owned_of(winner) == to.push(nft_id));
    assert(t.nfts.dom() =~= s.nfts.dom());
    assert forall|k: Dna| #[trigger] t.nfts.contains_key(k) implies t.nft_ok(k) by {
        assert(s.nft_ok(k));
    }
    assert forall|a: AccountId| #[trigger] t.owned.contains_key(a) implies {
        &&& t.owned[a].len() <= t.max_nfts_owned
        &&& t.owned[a].no_duplicates()
    } by {
        if a == winner {
            assert forall|i: int, j: int| 0 <= i < to.push(nft_id).len() && 0 <= j < to.push(nft_id).len() && i != j
                implies to.push(nft_id)[i] != to.push(nft_id)[j] by {
                if i == to.len() {
                    assert(to.contains(to[j]));
                } else if j == to.len() {
                    assert(to.contains(to[i]));
                } else if s.owned.contains_key(winner) {
                    assert(to.no_duplicates());
                }
            }
        } else if a != owner {
            assert(t.owned[a] == s.owned[a]);
        }
    }
    assert forall|a: AccountId, k: Dna| #[trigger] t.owned_of(a).contains(k) <==> (
        t.nfts.contains_key(k) && t.nfts[k].owner == a) by {
        if a != owner && a != winner {
            assert(t.owned_of(a) == s.owned_of(a));
        }
    }
}

} // verus!
