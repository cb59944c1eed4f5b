use vstd::prelude::*;
use crate::types::{AccountId, Balance, BlockNumber, Dna, NFT, Config, Event, Error, DispatchError, CurrencyAction, BLOCK_DELAY};
use crate::table::{
    Holding, nfts_unique, nft_table, holdings_unique, holding_table, lemma_nft_table_at,
    lemma_nft_table_push, lemma_nft_table_update, lemma_holding_table_at, lemma_holding_table_push,
    lemma_holding_table_update,
};
use crate::model::{
    PalletState, auction_end, mint_check, mint_apply, mint_outcome, lemma_empty_inv, lemma_mint_inv,
    bid_check, bid_apply, bid_actions, lemma_bid_inv, settle_check, settle_apply, settle_actions,
    lemma_settle_inv, swap_remove_value, lemma_position_of,
};
use crate::dna::{spec_gen_dna, encode_payload, hash_blake2_128, blake2_128_digest, u32_le_bytes, u64_le_bytes};
use crate::behaviour::{law_mint_behaviour, law_bid_behaviour, law_settle_behaviour};

verus! {

broadcast use vstd::array::group_array_axioms;

/// Whether two DNAs are the same.
pub(crate) fn dna_eq(a: &Dna, b: &Dna) -> (r: bool)
    ensures
        r == (*a == *b),
{
    let mut i: usize = 0;
    while i < 16
        invariant
            0 <= i <= 16,
            forall|j: int| 0 <= j < i ==> a[j] == b[j],
        decreases 16 - i,
    {
        if a[i] != b[i] {
            return false;
        }
        i = i + 1;
    }
    assert(*a =~= *b);
    true
}

/// The ledger of NFTs and their auctions.
#[derive(Clone, Debug, PartialEq, Eq)]
pub struct Pallet {
    count: u64,
    nfts: Vec<NFT>,
    owned: Vec<Holding>,
    events: Vec<Event>,
    max_nfts_owned: u32,
}

impl View for Pallet {
    type V = PalletState;

    closed spec fn view(&self) -> PalletState {
        PalletState {
            count: self.count,
            nfts: nft_table(self.nfts@),
            owned: holding_table(self.owned@),
            events: self.events@,
            max_nfts_owned: self.max_nfts_owned,
        }
    }
}

impl Pallet {
    /// The representation holds each DNA and each account at most once.
    pub closed spec fn rep_ok(&self) -> bool {
        nfts_unique(self.nfts@) && holdings_unique(self.owned@)
    }

    /// The ledger is well formed.
    pub open spec fn wf(&self) -> bool {
        self.rep_ok() && self@.inv()
    }

    /// An empty ledger.
    pub fn new(config: Config) -> (p: Pallet)
        ensures
            p.wf(),
            p@ == PalletState::empty(config.max_nfts_owned),
    {
        let p = Pallet {
            count: 0,
            nfts: Vec::new(),
            owned: Vec::new(),
            events: Vec::new(),
            max_nfts_owned: config.max_nfts_owned,
        };
        proof {
            lemma_empty_inv(config.max_nfts_owned);
            assert(nft_table(p.nfts@) =~= Map::empty());
            assert(holding_table(p.owned@) =~= Map::empty());
        }
        p
    }

    /// The position of the NFT `dna`, if the ledger has it.
    fn find_nft(&self, dna: &Dna) -> (r: Option<usize>)
        ensures
            match r {
                Some(i) => i < self.nfts@.len() && self.nfts@[i as int].dna == *dna,
                None => !nft_table(self.nfts@).contains_key(*dna),
            },
    {
        let mut i: usize = 0;
        while i < self.nfts.len()
            invariant
                0 <= i <= self.nfts@.len(),
                forall|j: int| 0 <= j < i ==> self.nfts@[j].dna != *dna,
            decreases self.nfts@.len() - i,
        {
            if dna_eq(&self.nfts[i].dna, dna) {
                return Some(i);
            }
            i = i + 1;
        }
        None
    }

    /// The position of the holding of `who`, if it has one.
    fn find_holding(&self, who: AccountId) -> (r: Option<usize>)
        ensures
            match r {
                Some(i) => i < self.owned@.len() && self.owned@[i as int].account == who,
                None => !holding_table(self.owned@).contains_key(who),
            },
    {
        let mut i: usize = 0;
        while i < self.owned.len()
            invariant
                0 <= i <= self.owned@.len(),
                forall|j: int| 0 <= j < i ==> self.owned@[j].account != who,
            decreases self.owned@.len() - i,
        {
            if self.owned[i].account == who {
                return Some(i);
            }
            i = i + 1;
        }
        None
    }

    /// The block at which an auction opened at block `now` closes.
    pub fn get_block_number(now: BlockNumber) -> (end: BlockNumber)
        requires
            now + BLOCK_DELAY <= u64::MAX,
        ensures
            end == auction_end(now),
            end == now + 100,
    {
        now + BLOCK_DELAY
    }

    /// Mints the NFT `dna` for `owner` at block `now`; its auction closes
    /// `BLOCK_DELAY` blocks later. On success it returns `dna`; on failure
    /// the ledger is unchanged. Events reported at block 0 are not kept.
    pub fn mint(&mut self, owner: AccountId, dna: Dna, now: BlockNumber) -> (r: Result<Dna, DispatchError>)
        requires
            old(self).wf(),
            now + BLOCK_DELAY <= u64::MAX,
        ensures
            final(self).wf(),
            (final(self)@, r) == mint_outcome(old(self)@, owner, dna, now),
            r is Ok ==> final(self)@.nfts.contains_key(dna) && final(self)@.nfts[dna].end == now + 100
                && final(self)@.nfts[dna].owner == owner,
    {
        proof {
            law_mint_behaviour(self@, owner, dna, now, owner, dna);
        }
        let end = Self::get_block_number(now);
        let nft = NFT { dna, bid_price: None, bidder: None, owner, end, settle: false };
        if self.find_nft(&dna).is_some() {
            proof {
                let i = choose|i: int| 0 <= i < self.nfts@.len() && self.nfts@[i].dna == dna;
                lemma_nft_table_at(self.nfts@, i);
            }
            return Err(DispatchError::Module(Error::DuplicateNFT));
        }
        let new_count = match self.count.checked_add(1) {
            Some(c) => c,
            None => {
                return Err(DispatchError::Overflow);
            },
        };
        if self.owned_count(owner) >= self.max_nfts_owned as usize {
            return Err(DispatchError::Module(Error::TooManyOwned));
        }
        self.push_owned(owner, dna);
        proof {
            lemma_nft_table_push(self.nfts@, nft);
        }
        self.nfts.push(nft);
        self.count = new_count;
        if now != 0 {
            self.events.push(Event::Created { nft: dna, owner });
        }
        proof {
            lemma_mint_inv(old(self)@, owner, dna, now);
            assert(self@ =~= mint_apply(old(self)@, owner, dna, now));
        }
        Ok(dna)
    }

    /// Where `dna` stands in the list of `who`, if it is there: the
    /// position of the holding and the position in its list.
    fn find_in_holding(&self, who: AccountId, dna: &Dna) -> (r: Option<(usize, usize)>)
        requires
            self.rep_ok(),
        ensures
            match r {
                Some((h, i)) => {
                    &&& h < self.owned@.len()
                    &&& self.owned@[h as int].account == who
                    &&& i < self.owned@[h as int].nfts@.len()
                    &&& self.owned@[h as int].nfts@[i as int] == *dna
                    &&& self@.owned_of(who) == self.owned@[h as int].nfts@
                },
                None => !self@.owned_of(who).contains(*dna),
            },
    {
        match self.find_holding(who) {
            None => None,
            Some(h) => {
                proof {
                    lemma_holding_table_at(self.owned@, h as int);
                }
                let list = &self.owned[h].nfts;
                assert(self@.owned_of(who) == list@);
                let mut i: usize = 0;
                while i < list.len()
                    invariant
                        0 <= i <= list@.len(),
                        self@.owned_of(who) == list@,
                        h < self.owned@.len(),
                        self.owned@[h as int].account == who,
                        list@ == self.owned@[h as int].nfts@,
                        forall|j: int| 0 <= j < i ==> list@[j] != *dna,
                    decreases list@.len() - i,
                {
                    if dna_eq(&list[i], dna) {
                        return Some((h, i));
                    }
                    i = i + 1;
                }
                None
            },
        }
    }

    /// Appends `dna` to the list of `who`, making the list if it has none.
    fn push_owned(&mut self, who: AccountId, dna: Dna)
        requires
            old(self).rep_ok(),
        ensures
            final(self).rep_ok(),
            final(self).nfts@ == old(self).nfts@,
            final(self).count == old(self).count,
            final(self).events@ == old(self).events@,
            final(self).max_nfts_owned == old(self).max_nfts_owned,
            final(self)@.owned == old(self)@.owned.insert(who, old(self)@.owned_of(who).push(dna)),
    {
        let ghost old_owned = self.owned@;
        match self.find_holding(who) {
            Some(i) => {
                proof {
                    lemma_holding_table_at(self.owned@, i as int);
                }
                self.owned[i].nfts.push(dna);
                proof {
                    assert(self.owned@ =~= old_owned.update(i as int, self.owned@[i as int]));
                    lemma_holding_table_update(old_owned, i as int, self.owned@[i as int]);
                }
            },
            None => {
                let mut list: Vec<Dna> = Vec::new();
                list.push(dna);
                let h = Holding { account: who, nfts: list };
                proof {
                    assert(h.nfts@ =~= Seq::<Dna>::empty().push(dna));
                    lemma_holding_table_push(old_owned, h);
                }
                self.owned.push(h);
            },
        }
    }

    /// How many NFTs `who` owns.
    pub(crate) fn owned_count(&self, who: AccountId) -> (r: usize)
        requires
            self.rep_ok(),
        ensures
            r == self@.owned_of(who).len(),
    {
        match self.find_holding(who) {
            None => 0,
            Some(h) => {
                proof {
                    lemma_holding_table_at(self.owned@, h as int);
                }
                self.owned[h].nfts.len()
            },
        }
    }

    /// Derives the DNA of a new NFT from a random seed, the index of the
    /// extrinsic in its block (zero when there is none) and the block
    /// number: the Blake2b-128 hash of their SCALE encoding.
    pub fn gen_dna(random: [u8; 32], extrinsic_index: Option<u32>, block_number: BlockNumber) -> (dna: Dna)
        ensures
            dna@ == spec_gen_dna(random@, extrinsic_index, block_number),
            dna@ == blake2_128_digest(
                random@ + u32_le_bytes((if extrinsic_index is Some { extrinsic_index->0 } else { 0u32 }))
                    + u64_le_bytes(block_number),
            ),
    {
        let index: u32 = match extrinsic_index {
            Some(i) => i,
            None => 0,
        };
        let payload = encode_payload(&random, index, block_number);
        hash_blake2_128(payload.as_slice())
    }

    /// Creates an NFT for `sender` at block `now`: exactly what `mint` does
    /// with the DNA that `gen_dna` derives from `random`, `extrinsic_index`
    /// and `now`, with `Ok(_)` returned as `Ok(())`.
    pub fn create_nft(
        &mut self,
        sender: AccountId,
        random: [u8; 32],
        extrinsic_index: Option<u32>,
        now: BlockNumber,
    ) -> (r: Result<(), DispatchError>)
        requires
            old(self).wf(),
            now + BLOCK_DELAY <= u64::MAX,
        ensures
            final(self).wf(),
            ({
                let (after, minted) = mint_outcome(old(self)@, sender, dna_of(spec_gen_dna(random@, extrinsic_index, now)), now);
                &&& final(self)@ == after
                &&& r == match minted {
                    Ok(_) => Ok::<(), DispatchError>(()),
                    Err(e) => Err::<(), DispatchError>(e),
                }
            }),
    {
        let dna = Self::gen_dna(random, extrinsic_index, now);
        proof {
            lemma_dna_of(dna);
        }
        match self.mint(sender, dna, now) {
            Ok(_) => Ok(()),
            Err(e) => Err(e),
        }
    }

    /// `sender` bids `price` on the NFT `nft_id` at block `now`. On success
    /// the bid becomes the highest one and the call returns what the
    /// currency has to do: release the outbid bidder's lock, if there was
    /// one, and lock `price` on `sender`. On failure the ledger is unchanged.
    pub fn bid(&mut self, sender: AccountId, nft_id: Dna, price: Balance, now: BlockNumber) -> (r: Result<
        Vec<CurrencyAction>,
        DispatchError,
    >)
        requires
            old(self).wf(),
        ensures
            final(self).wf(),
            match bid_check(old(self)@, sender, nft_id, price, now) {
                Ok(_) => r is Ok && r->Ok_0@ == bid_actions(old(self)@, sender, nft_id, price)
                    && final(self)@ == bid_apply(old(self)@, sender, nft_id, price, now),
                Err(e) => r == Err::<Vec<CurrencyAction>, DispatchError>(e) && final(self)@ == old(self)@,
            },
            r is Ok ==> (r->Ok_0@.last() == (CurrencyAction::SetLock { who: sender, amount: price })
                && final(self)@.nfts[nft_id].bid_price == Some(price)
                && final(self)@.nfts[nft_id].bidder == Some(sender)),
            old(self)@.nfts.contains_key(nft_id) && sender != old(self)@.nfts[nft_id].owner
                && now >= old(self)@.nfts[nft_id].end ==> r == Err::<Vec<CurrencyAction>, DispatchError>(
                DispatchError::Module(Error::BidClosed),
            ) && final(self)@ == old(self)@,
    {
        proof {
            law_bid_behaviour(self@, sender, nft_id, price, now);
        }
        let i = match self.find_nft(&nft_id) {
            Some(i) => i,
            None => {
                return Err(DispatchError::Module(Error::NoNFT));
            },
        };
        proof {
            lemma_nft_table_at(self.nfts@, i as int);
            assert(self@.nft_ok(nft_id));
        }
        let mut nft = self.nfts[i];
        if sender == nft.owner {
            return Err(DispatchError::Module(Error::SameBidderOwner));
        }
        if !(now < nft.end) {
            return Err(DispatchError::Module(Error::BidClosed));
        }
        let mut actions: Vec<CurrencyAction> = Vec::new();
        if let Some(bid_price) = nft.bid_price {
            if !(price > bid_price) {
                return Err(DispatchError::Module(Error::BidPriceTooLow));
            }
            let bidder = nft.bidder.unwrap();
            actions.push(CurrencyAction::RemoveLock { who: bidder });
        }
        actions.push(CurrencyAction::SetLock { who: sender, amount: price });
        nft.bid_price = Some(price);
        nft.bidder = Some(sender);
        proof {
            lemma_nft_table_update(self.nfts@, i as int, nft);
        }
        self.nfts.set(i, nft);
        if now != 0 {
            self.events.push(Event::Bidded { nft: nft_id, bidder: sender, bid_price: price });
        }
        proof {
            lemma_bid_inv(old(self)@, sender, nft_id, price, now);
            assert(self@ =~= bid_apply(old(self)@, sender, nft_id, price, now));
            assert(actions@ =~= bid_actions(old(self)@, sender, nft_id, price));
        }
        Ok(actions)
    }

    /// Settles the auction of `nft_id` for its owner `owner` at block `now`.
    fn settle(&mut self, owner: AccountId, nft_id: Dna, now: BlockNumber, keep_alive: bool) -> (r: Result<
        Vec<CurrencyAction>,
        DispatchError,
    >)
        requires
            old(self).wf(),
        ensures
            final(self).wf(),
            match settle_check(old(self)@, owner, nft_id, now) {
                Ok(_) => r is Ok && r->Ok_0@ == settle_actions(old(self)@, owner, nft_id, keep_alive)
                    && final(self)@ == settle_apply(old(self)@, owner, nft_id, now),
                Err(e) => r == Err::<Vec<CurrencyAction>, DispatchError>(e) && final(self)@ == old(self)@,
            },
            r is Ok ==> (r->Ok_0@ == seq![
                (CurrencyAction::RemoveLock { who: old(self)@.nfts[nft_id].bidder->0 }),
                (CurrencyAction::Transfer {
                    from: old(self)@.nfts[nft_id].bidder->0,
                    to: owner,
                    amount: old(self)@.nfts[nft_id].bid_price->0,
                    keep_alive: keep_alive,
                }),
            ]),
    {
        proof {
            law_settle_behaviour(self@, owner, nft_id, now, keep_alive);
        }
        let i = match self.find_nft(&nft_id) {
            Some(i) => i,
            None => {
                return Err(DispatchError::Module(Error::NoNFT));
            },
        };
        proof {
            lemma_nft_table_at(self.nfts@, i as int);
        }
        let mut nft = self.nfts[i];
        if nft.settle {
            return Err(DispatchError::Module(Error::NFTSettled));
        }
        if owner != nft.owner {
            return Err(DispatchError::Module(Error::WithdrawalNotOwner));
        }
        if !(now >= nft.end) {
            return Err(DispatchError::Module(Error::BidNotClosed));
        }
        let (h, pos) = match self.find_in_holding(owner, &nft_id) {
            Some(found) => found,
            None => {
                return Err(DispatchError::Module(Error::NoNFT));
            },
        };
        let winner = match nft.bidder {
            Some(b) => b,
            None => {
                return Err(DispatchError::Module(Error::NoBidder));
            },
        };
        let price = match nft.bid_price {
            Some(p) => p,
            None => {
                return Err(DispatchError::Module(Error::NoBidder));
            },
        };
        if self.owned_count(winner) >= self.max_nfts_owned as usize {
            return Err(DispatchError::Module(Error::TooManyOwned));
        }
        let mut actions: Vec<CurrencyAction> = Vec::new();
        actions.push(CurrencyAction::RemoveLock { who: winner });
        actions.push(CurrencyAction::Transfer { from: winner, to: owner, amount: price, keep_alive });
        let ghost s0 = old(self)@;
        proof {
            assert(s0.nft_ok(nft_id));
            let from = s0.owned_of(owner);
            assert(s0.owned.contains_key(owner));
            assert(from.no_duplicates());
            lemma_position_of(from, pos as int);
            lemma_holding_table_at(self.owned@, h as int);
        }
        let ghost old_owned = self.owned@;
        self.owned[h].nfts.swap_remove(pos);
        proof {
            assert(self.owned@ =~= old_owned.update(h as int, self.owned@[h as int]));
            lemma_holding_table_update(old_owned, h as int, self.owned@[h as int]);
            assert(self@.owned =~= s0.owned.insert(owner, swap_remove_value(s0.owned_of(owner), nft_id)));
            assert(self@.owned_of(winner) == s0.owned_of(winner));
        }
        self.push_owned(winner, nft_id);
        nft.settle = true;
        nft.owner = winner;
        proof {
            lemma_nft_table_update(self.nfts@, i as int, nft);
        }
        self.nfts.set(i, nft);
        if now != 0 {
            self.events.push(Event::Withdrawal { nft: nft_id, from: owner, to: winner });
        }
        proof {
            lemma_settle_inv(s0, owner, nft_id, now);
            assert(self@.nfts =~= settle_apply(s0, owner, nft_id, now).nfts);
            assert(self@.owned =~= settle_apply(s0, owner, nft_id, now).owned);
            assert(self@ =~= settle_apply(s0, owner, nft_id, now));
            assert(actions@ =~= settle_actions(s0, owner, nft_id, keep_alive));
        }
        Ok(actions)
    }

    /// `sender`, the owner of `nft_id`, settles its auction at block `now`
    /// once it has closed. On success the NFT goes to the highest bidder (its
    /// owner field, the owner's list and the winner's list follow), its
    /// auction is marked settled, and the call returns what the currency
    /// has to do: release the winner's lock, then
    /// transfer the winning price from the winner to the owner (the winner's
    /// account may be reaped). The caller keeps the new state only if the
    /// transfer succeeds. On failure the ledger is unchanged.
    pub fn withdrawal(&mut self, sender: AccountId, nft_id: Dna, now: BlockNumber) -> (r: Result<
        Vec<CurrencyAction>,
        DispatchError,
    >)
        requires
            old(self).wf(),
        ensures
            final(self).wf(),
            match settle_check(old(self)@, sender, nft_id, now) {
                Ok(_) => r is Ok && r->Ok_0@ == settle_actions(old(self)@, sender, nft_id, false)
                    && final(self)@ == settle_apply(old(self)@, sender, nft_id, now),
                Err(e) => r == Err::<Vec<CurrencyAction>, DispatchError>(e) && final(self)@ == old(self)@,
            },
            r is Ok ==> (r->Ok_0@ == seq![
                (CurrencyAction::RemoveLock { who: old(self)@.nfts[nft_id].bidder->0 }),
                (CurrencyAction::Transfer {
                    from: old(self)@.nfts[nft_id].bidder->0,
                    to: sender,
                    amount: old(self)@.nfts[nft_id].bid_price->0,
                    keep_alive: false,
                }),
            ]),
    {
        self.settle(sender, nft_id, now, false)
    }

    /// Settles the auction of `nft_id` on behalf of its owner `owner` at
    /// block `block_number`, as the end of each block does for every NFT.
    /// Same as `withdrawal`, except that the transfer must leave the
    /// winner's account alive.
    pub fn settle_nft(&mut self, owner: AccountId, nft_id: Dna, block_number: BlockNumber) -> (r: Result<
        Vec<CurrencyAction>,
        DispatchError,
    >)
        requires
            old(self).wf(),
        ensures
            final(self).wf(),
            match settle_check(old(self)@, owner, nft_id, block_number) {
                Ok(_) => r is Ok && r->Ok_0@ == settle_actions(old(self)@, owner, nft_id, true)
                    && final(self)@ == settle_apply(old(self)@, owner, nft_id, block_number),
                Err(e) => r == Err::<Vec<CurrencyAction>, DispatchError>(e) && final(self)@ == old(self)@,
            },
            r is Ok ==> (r->Ok_0@ == seq![
                (CurrencyAction::RemoveLock { who: old(self)@.nfts[nft_id].bidder->0 }),
                (CurrencyAction::Transfer {
                    from: old(self)@.nfts[nft_id].bidder->0,
                    to: owner,
                    amount: old(self)@.nfts[nft_id].bid_price->0,
                    keep_alive: true,
                }),
            ]),
    {
        self.settle(owner, nft_id, block_number, true)
    }

    /// Every pair of an account and an NFT it owns, each once: the auctions
    /// that the end of a block tries to settle.
    pub fn settlement_candidates(&self) -> (r: Vec<(AccountId, Dna)>)
        requires
            self.wf(),
        ensures
            r@.no_duplicates(),
            forall|a: AccountId, k: Dna| #[trigger] r@.contains((a, k)) <==> self@.owned_of(a).contains(k),
    {
        let mut out: Vec<(AccountId, Dna)> = Vec::new();
        let mut i: usize = 0;
        while i < self.nfts.len()
            invariant
                0 <= i <= self.nfts@.len(),
                self.wf(),
                out@.len() == i,
                forall|j: int| 0 <= j < i ==> #[trigger] out@[j] == (self.nfts@[j].owner, self.nfts@[j].dna),
            decreases self.nfts@.len() - i,
        {
            out.push((self.nfts[i].owner, self.nfts[i].dna));
            i = i + 1;
        }
        proof {
            let s = self.nfts@;
            assert forall|x: int, y: int| 0 <= x < out@.len() && 0 <= y < out@.len() && x != y
                implies out@[x] != out@[y] by {
                if x < y {
                    assert(s[x].dna != s[y].dna);
                } else {
                    assert(s[y].dna != s[x].dna);
                }
            }
            assert forall|a: AccountId, k: Dna| #[trigger] out@.contains((a, k)) <==> self@.owned_of(a).contains(k) by {
                if out@.contains((a, k)) {
                    let j = choose|j: int| 0 <= j < out@.len() && out@[j] == (a, k);
                    lemma_nft_table_at(s, j);
                }
                if self@.owned_of(a).contains(k) {
                    let j = choose|j: int| 0 <= j < s.len() && s[j].dna == k;
                    lemma_nft_table_at(s, j);
                    assert(out@[j] == (a, k));
                }
            }
        }
        out
    }

    /// How many NFTs were ever minted.
    pub fn nft_cnt(&self) -> (r: u64)
        ensures
            r == self@.count,
    {
        self.count
    }

    /// The NFT `dna`, if the ledger has it.
    pub fn nfts(&self, dna: Dna) -> (r: Option<NFT>)
        requires
            self.wf(),
        ensures
            r == (if self@.nfts.contains_key(dna) { Some(self@.nfts[dna]) } else { None::<NFT> }),
    {
        match self.find_nft(&dna) {
            Some(i) => {
                proof {
                    lemma_nft_table_at(self.nfts@, i as int);
                }
                Some(self.nfts[i])
            },
            None => None,
        }
    }

    /// The NFTs that `who` owns, in the order they were minted.
    pub fn nfts_owned(&self, who: AccountId) -> (r: Vec<Dna>)
        requires
            self.wf(),
        ensures
            r@ == self@.owned_of(who),
    {
        let mut out: Vec<Dna> = Vec::new();
        match self.find_holding(who) {
            None => {
                assert(out@ =~= self@.owned_of(who));
            },
            Some(h) => {
                proof {
                    lemma_holding_table_at(self.owned@, h as int);
                }
                let list = &self.owned[h].nfts;
                let mut i: usize = 0;
                while i < list.len()
                    invariant
                        0 <= i <= list@.len(),
                        out@ =~= list@.subrange(0, i as int),
                    decreases list@.len() - i,
                {
                    out.push(list[i]);
                    i = i + 1;
                }
                assert(list@.subrange(0, list@.len() as int) =~= list@);
            },
        }
        out
    }

    /// Every account that has a list of owned NFTs, each once, with its
    /// list.
    pub fn owned_entries(&self) -> (r: Vec<(AccountId, Vec<Dna>)>)
        requires
            self.wf(),
        ensures
            forall|i: int, j: int| 0 <= i < j < r@.len() ==> r@[i].0 != r@[j].0,
            forall|i: int| 0 <= i < r@.len() ==> (#[trigger] r@[i]).1@ == self@.owned_of(r@[i].0),
            forall|a: AccountId| #[trigger] self@.owned.contains_key(a) ==> exists|i: int| 0 <= i < r@.len() && r@[i].0 == a,
    {
        let mut out: Vec<(AccountId, Vec<Dna>)> = Vec::new();
        let mut i: usize = 0;
        while i < self.owned.len()
            invariant
                0 <= i <= self.owned@.len(),
                self.wf(),
                out@.len() == i,
                forall|j: int| 0 <= j < i ==> (#[trigger] out@[j]).0 == self.owned@[j].account,
                forall|j: int| 0 <= j < i ==> (#[trigger] out@[j]).1@ == self@.owned_of(out@[j].0),
            decreases self.owned@.len() - i,
        {
            let who = self.owned[i].account;
            let list = self.nfts_owned(who);
            out.push((who, list));
            i = i + 1;
        }
        proof {
            assert forall|a: AccountId| #[trigger] self@.owned.contains_key(a) implies exists|i: int| 0 <= i < out@.len() && out@[i].0 == a by {
                let j = choose|j: int| 0 <= j < self.owned@.len() && self.owned@[j].account == a;
                assert(out@[j].0 == a);
            }
            assert forall|x: int, y: int| 0 <= x < y < out@.len() implies out@[x].0 != out@[y].0 by {
                assert(out@[x].0 == self.owned@[x].account && out@[y].0 == self.owned@[y].account);
            }
        }
        out
    }

    /// Every event reported so far, oldest first.
    pub fn events(&self) -> (r: Vec<Event>)
        ensures
            r@ == self@.events,
    {
        let mut out: Vec<Event> = Vec::new();
        let mut i: usize = 0;
        while i < self.events.len()
            invariant
                0 <= i <= self.events@.len(),
                out@ =~= self.events@.subrange(0, i as int),
            decreases self.events@.len() - i,
        {
            out.push(self.events[i]);
            i = i + 1;
        }
        assert(self.events@.subrange(0, self.events@.len() as int) =~= self.events@);
        out
    }

    /// How many NFTs one account may own.
    pub fn max_nfts_owned(&self) -> (r: u32)
        ensures
            r == self@.max_nfts_owned,
    {
        self.max_nfts_owned
    }
}

/// The DNA whose bytes are `bytes`.
pub open spec fn dna_of(bytes: Seq<u8>) -> Dna {
    choose|d: Dna| d@ == bytes
}

pub proof fn lemma_dna_of(d: Dna)
    ensures
        dna_of(d@) == d,
{
    let c = dna_of(d@);
    assert(c@ == d@);
    assert(c =~= d) by {
        assert forall|i: int| 0 <= i < 16 implies c[i] == d[i] by {
            assert(c@[i] == d@[i]);
        }
    }
}

} // verus!
