use vstd::prelude::*;
use crate::types::{AccountId, BlockNumber, Dna, DispatchError, BLOCK_DELAY};
use crate::model::{PalletState, mint_check, mint_apply, lemma_mint_inv};
use crate::pallet::{Pallet, dna_eq};

verus! {

/// The NFTs that exist from the first block on.
pub struct GenesisConfig {
    /// Each pair is an owner and the DNA of an NFT minted for it.
    pub nfts: Vec<(AccountId, Dna)>,
}

/// Mints the NFTs of `list` in order, starting from `s`, and stops at the
/// first one that fails: the ledger reached and the outcome.
pub open spec fn genesis_run(s: PalletState, list: Seq<(AccountId, Dna)>, now: BlockNumber) -> (PalletState, Result<(), DispatchError>)
    decreases list.len(),
{
    if list.len() == 0 {
        (s, Ok(()))
    } else {
        match mint_check(s, list[0].0, list[0].1) {
            Err(e) => (s, Err(e)),
            Ok(_) => genesis_run(mint_apply(s, list[0].0, list[0].1, now), list.drop_first(), now),
        }
    }
}

/// How many entries of `list` name the account `who`.
pub open spec fn occurrences(list: Seq<(AccountId, Dna)>, who: AccountId) -> nat
    decreases list.len(),
{
    if list.len() == 0 {
        0
    } else {
        occurrences(list.drop_last(), who) + if list.last().0 == who { 1nat } else { 0nat }
    }
}

/// Entry `i` of `list` can be minted after the entries before it: its DNA
/// is neither in `s` nor earlier in the list, and its account stays under
/// the limit with the entries before it that name it.
pub open spec fn genesis_entry_ok(s: PalletState, list: Seq<(AccountId, Dna)>, i: int) -> bool {
    &&& !s.nfts.contains_key(list[i].1)
    &&& forall|j: int| 0 <= j < i ==> #[trigger] list[j].1 != list[i].1
    &&& s.owned_of(list[i].0).len() + occurrences(list.take(i), list[i].0) < s.max_nfts_owned
}

/// Every entry of `list` can be minted into `s`, in order: no DNA is
/// repeated or already there, no account goes over the limit, and the
/// count of NFTs does not overflow.
pub open spec fn genesis_valid(s: PalletState, list: Seq<(AccountId, Dna)>) -> bool {
    &&& s.count + list.len() <= u64::MAX
    &&& forall|i: int| 0 <= i < list.len() ==> #[trigger] genesis_entry_ok(s, list, i)
}

proof fn lemma_occurrences_front(list: Seq<(AccountId, Dna)>, i: int, who: AccountId)
    requires
        0 <= i < list.len(),
    ensures
        occurrences(list.take(i + 1), who) == (if list[0].0 == who { 1nat } else { 0nat })
            + occurrences(list.drop_first().take(i), who),
    decreases i,
{
    assert(list.take(i + 1).drop_last() =~= list.take(i));
    if i == 0 {
        assert(list.take(0) =~= Seq::<(AccountId, Dna)>::empty());
        assert(list.drop_first().take(0) =~= Seq::<(AccountId, Dna)>::empty());
    } else {
        lemma_occurrences_front(list, i - 1, who);
        assert(list.drop_first().take(i).drop_last() =~= list.drop_first().take(i - 1));
    }
}

/// The genesis build succeeds exactly on the configurations that
/// `genesis_valid` describes.
pub proof fn lemma_genesis_valid(s: PalletState, list: Seq<(AccountId, Dna)>, now: BlockNumber)
    ensures
        genesis_valid(s, list) <==> genesis_run(s, list, now).1 is Ok,
    decreases list.len(),
{
    if list.len() > 0 {
        let a0 = list[0].0;
        let d0 = list[0].1;
        let rest = list.drop_first();
        let t = mint_apply(s, a0, d0, now);
        lemma_genesis_valid(t, rest, now);
        assert(list.take(0) =~= Seq::<(AccountId, Dna)>::empty());
        assert forall|i: int| 0 <= i < rest.len() && mint_check(s, a0, d0) is Ok implies
            (genesis_entry_ok(s, list, i + 1) <==> genesis_entry_ok(t, rest, i)) by {
            lemma_occurrences_front(list, i, rest[i].0);
            assert(list[i + 1] == rest[i]);
            let a = rest[i].0;
            if a == a0 {
                assert(t.owned_of(a) == s.owned_of(a0).push(d0));
            } else {
                assert(t.owned_of(a) == s.owned_of(a));
            }
            if genesis_entry_ok(t, rest, i) {
                assert forall|j: int| 0 <= j < i + 1 implies #[trigger] list[j].1 != list[i + 1].1 by {
                    if j > 0 {
                        assert(list[j] == rest[j - 1]);
                    } else {
                        assert(t.nfts.contains_key(d0));
                    }
                }
            }
            if genesis_entry_ok(s, list, i + 1) {
                assert(list[0].1 != list[i + 1].1);
                assert forall|j: int| 0 <= j < i implies #[trigger] rest[j].1 != rest[i].1 by {
                    assert(list[j + 1] == rest[j]);
                }
            }
        }
        if genesis_valid(s, list) {
            assert(genesis_entry_ok(s, list, 0));
            assert(mint_check(s, a0, d0) is Ok);
            assert forall|i: int| 0 <= i < rest.len() implies genesis_entry_ok(t, rest, i) by {
                assert(genesis_entry_ok(s, list, i + 1));
            }
        }
        if genesis_run(s, list, now).1 is Ok {
            assert(mint_check(s, a0, d0) is Ok);
            assert forall|i: int| 0 <= i < list.len() implies genesis_entry_ok(s, list, i) by {
                if i > 0 {
                    assert(genesis_entry_ok(t, rest, i - 1));
                }
            }
        }
    }
}

/// A valid genesis configuration mints every one of its NFTs for the
/// account it names, counts each, and leaves the NFTs already there as
/// they were.
pub proof fn law_genesis_mints_all(s: PalletState, list: Seq<(AccountId, Dna)>, now: BlockNumber, i: int, k: Dna)
    requires
        s.inv(),
        genesis_valid(s, list),
    ensures
        genesis_run(s, list, now).1 is Ok,
        genesis_run(s, list, now).0.count == s.count + list.len(),
        0 <= i < list.len() ==> genesis_run(s, list, now).0.nfts.contains_key(list[i].1)
            && genesis_run(s, list, now).0.nfts[list[i].1].owner == list[i].0,
        s.nfts.contains_key(k) ==> genesis_run(s, list, now).0.nfts.contains_key(k)
            && genesis_run(s, list, now).0.nfts[k] == s.nfts[k],
    decreases list.len(),
{
    lemma_genesis_valid(s, list, now);
    if list.len() > 0 {
        let a0 = list[0].0;
        let d0 = list[0].1;
        let rest = list.drop_first();
        let t = mint_apply(s, a0, d0, now);
        lemma_mint_inv(s, a0, d0, now);
        lemma_genesis_valid(t, rest, now);
        assert(genesis_run(s, list, now) == genesis_run(t, rest, now));
        if 0 < i < list.len() {
            assert(list[i] == rest[i - 1]);
            law_genesis_mints_all(t, rest, now, i - 1, k);
        } else {
            law_genesis_mints_all(t, rest, now, 0, d0);
            law_genesis_mints_all(t, rest, now, 0, k);
        }
    }
}

impl Default for GenesisConfig {
    fn default() -> (r: GenesisConfig)
        ensures
            r.nfts@.len() == 0,
    {
        GenesisConfig { nfts: Vec::new() }
    }
}

impl GenesisConfig {
    /// Whether every NFT of the configuration can be minted into `pallet`,
    /// in order.
    pub fn is_valid(&self, pallet: &Pallet) -> (r: bool)
        requires
            pallet.wf(),
        ensures
            r == genesis_valid(pallet@, self.nfts@),
    {
        let list = &self.nfts;
        let n = list.len();
        let count = pallet.nft_cnt();
        if n as u64 > u64::MAX - count {
            return false;
        }
        let max = pallet.max_nfts_owned();
        let mut i: usize = 0;
        while i < n
            invariant
                0 <= i <= n,
                n == list@.len(),
                list@ == self.nfts@,
                pallet.wf(),
                max == pallet@.max_nfts_owned,
                forall|k: int| 0 <= k < i ==> genesis_entry_ok(pallet@, list@, k),
            decreases n - i,
        {
            let (who, dna) = list[i];
            if pallet.nfts(dna).is_some() {
                assert(!genesis_entry_ok(pallet@, list@, i as int));
                return false;
            }
            let mut before: u64 = 0;
            let mut j: usize = 0;
            while j < i
                invariant
                    0 <= j <= i < n,
                    n == list@.len(),
                    list@ == self.nfts@,
                    list@[i as int] == (who, dna),
                    before as nat == occurrences(list@.take(j as int), who),
                    before <= j,
                    forall|k: int| 0 <= k < j ==> list@[k].1 != dna,
                decreases i - j,
            {
                if dna_eq(&list[j].1, &dna) {
                    assert(!genesis_entry_ok(pallet@, list@, i as int));
                    return false;
                }
                assert(list@.take(j + 1).drop_last() =~= list@.take(j as int));
                if list[j].0 == who {
                    before = before + 1;
                }
                j = j + 1;
            }
            let owned = pallet.owned_count(who);
            if before >= max as u64 || owned as u64 >= max as u64 - before {
                assert(!genesis_entry_ok(pallet@, list@, i as int));
                return false;
            }
            i = i + 1;
        }
        true
    }

    /// Mints the NFTs of the configuration into `pallet` at block `now`, in
    /// order. The configuration must be valid, and then every mint succeeds.
    pub fn build(&self, pallet: &mut Pallet, now: BlockNumber) -> (r: Result<(), DispatchError>)
        requires
            old(pallet).wf(),
            now + BLOCK_DELAY <= u64::MAX,
            genesis_valid(old(pallet)@, self.nfts@),
        ensures
            final(pallet).wf(),
            r == Ok::<(), DispatchError>(()),
            final(pallet)@ == genesis_run(old(pallet)@, self.nfts@, now).0,
            final(pallet)@.count == old(pallet)@.count + self.nfts@.len(),
            forall|i: int| 0 <= i < self.nfts@.len() ==> final(pallet)@.nfts.contains_key(#[trigger] self.nfts@[i].1)
                && final(pallet)@.nfts[self.nfts@[i].1].owner == self.nfts@[i].0,
    {
        proof {
            lemma_genesis_valid(old(pallet)@, self.nfts@, now);
            let ghost g = genesis_run(old(pallet)@, self.nfts@, now).0;
            assert forall|i: int| 0 <= i < self.nfts@.len() implies g.nfts.contains_key(#[trigger] self.nfts@[i].1)
                && g.nfts[self.nfts@[i].1].owner == self.nfts@[i].0 by {
                law_genesis_mints_all(old(pallet)@, self.nfts@, now, i, self.nfts@[i].1);
            }
            let k: Dna = vstd::pervasive::arbitrary();
            law_genesis_mints_all(old(pallet)@, self.nfts@, now, 0, k);
        }
        let mut i: usize = 0;
        assert(self.nfts@.skip(0) =~= self.nfts@);
        while i < self.nfts.len()
            invariant
                0 <= i <= self.nfts@.len(),
                pallet.wf(),
                now + BLOCK_DELAY <= u64::MAX,
                genesis_run(old(pallet)@, self.nfts@, now) == genesis_run(pallet@, self.nfts@.skip(i as int), now),
                genesis_run(pallet@, self.nfts@.skip(i as int), now).1 is Ok,
            decreases self.nfts@.len() - i,
        {
            let (account, dna) = self.nfts[i];
            let ghost rest = self.nfts@.skip(i as int);
            assert(rest[0] == (account, dna));
            assert(rest.drop_first() =~= self.nfts@.skip(i + 1));
            let minted = pallet.mint(account, dna, now);
            assert(minted is Ok);
            i = i + 1;
        }
        assert(self.nfts@.skip(i as int).len() == 0);
        Ok(())
    }
}

} // verus!
