use vstd::prelude::*;

verus! {

/// An account of the chain.
pub type AccountId = u64;

/// A block number.
pub type BlockNumber = u64;

/// An amount of the staking currency.
pub type Balance = u64;

/// The identifier of an NFT.
pub type Dna = [u8; 16];

/// How many blocks an auction stays open after the NFT is minted.
pub const BLOCK_DELAY: u64 = 100;

/// What the ledger knows of one NFT.
#[derive(Clone, Copy, Debug, PartialEq, Eq)]
pub struct NFT {
    /// The identifier of the NFT.
    pub dna: Dna,
    /// The highest bid so far.
    pub bid_price: Option<Balance>,
    /// Who placed the highest bid so far.
    pub bidder: Option<AccountId>,
    /// Who owns the NFT.
    pub owner: AccountId,
    /// The block at which the auction closes.
    pub end: BlockNumber,
    /// Whether the auction has been settled.
    pub settle: bool,
}

/// The constants that a ledger is set up with.
#[derive(Clone, Copy, Debug, PartialEq, Eq)]
pub struct Config {
    /// How many NFTs one account may own.
    pub max_nfts_owned: u32,
}

/// What the ledger reports of each change it makes.
#[derive(Clone, Copy, Debug, PartialEq, Eq)]
pub enum Event {
    /// A new NFT was created.
    Created { nft: Dna, owner: AccountId },
    /// A bid on an NFT was accepted.
    Bidded { nft: Dna, bidder: AccountId, bid_price: Balance },
    /// An auction was settled: the NFT went from `from`, its owner, to `to`,
    /// the highest bidder, who paid the price of the bid.
    Withdrawal { nft: Dna, from: AccountId, to: AccountId },
}

/// Why the ledger refused a request.
#[derive(Clone, Copy, Debug, PartialEq, Eq)]
pub enum Error {
    /// An account may only own `max_nfts_owned` NFTs.
    TooManyOwned,
    /// This NFT already exists.
    DuplicateNFT,
    /// This NFT does not exist.
    NoNFT,
    /// The owner of an NFT may not bid on it.
    SameBidderOwner,
    /// A bid must be higher than the one before it.
    BidPriceTooLow,
    /// The auction has closed.
    BidClosed,
    /// The auction has not closed yet.
    BidNotClosed,
    /// Only the owner may settle an auction.
    WithdrawalNotOwner,
    /// Nobody bid on the NFT.
    NoBidder,
    /// The auction has already been settled.
    NFTSettled,
}

/// The error of a refused call: one of the ledger's own, or an arithmetic overflow.
#[derive(Clone, Copy, Debug, PartialEq, Eq)]
pub enum DispatchError {
    /// A refusal of the ledger.
    Module(Error),
    /// The number of NFTs would overflow.
    Overflow,
}

/// A change of the staking currency that the caller performs after a
/// successful call, in the order given.
#[derive(Clone, Copy, Debug, PartialEq, Eq)]
pub enum CurrencyAction {
    /// Lock `amount` of `who`'s balance for the auction.
    SetLock { who: AccountId, amount: Balance },
    /// Release the auction lock on `who`'s balance.
    RemoveLock { who: AccountId },
    /// Move `amount` from `from` to `to`; `keep_alive` asks that `from`
    /// keep at least the existential deposit.
    Transfer { from: AccountId, to: AccountId, amount: Balance, keep_alive: bool },
}

} // verus!
