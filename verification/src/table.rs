use vstd::prelude::*;
use crate::types::{AccountId, Dna, NFT};

verus! {

/// The NFTs that one account owns, in the order they were added.
#[derive(Clone, Debug, PartialEq, Eq)]
pub struct Holding {
    pub account: AccountId,
    pub nfts: Vec<Dna>,
}

/// No two entries of `s` share a key.
pub open spec fn keys_unique<E, K>(s: Seq<E>, key: spec_fn(E) -> K) -> bool {
    forall|i: int, j: int| 0 <= i < j < s.len() ==> key(s[i]) != key(s[j])
}

/// The values of the entries of `s`, keyed by their keys.
pub open spec fn keyed_table<E, K, V>(s: Seq<E>, key: spec_fn(E) -> K, val: spec_fn(E) -> V) -> Map<K, V> {
    Map::new(
        |k: K| exists|i: int| 0 <= i < s.len() && key(s[i]) == k,
        |k: K| val(s[choose|i: int| 0 <= i < s.len() && key(s[i]) == k]),
    )
}

/// No two NFTs of `s` share a DNA.
pub open spec fn nfts_unique(s: Seq<NFT>) -> bool {
    keys_unique(s, |n: NFT| n.dna)
}

/// The NFTs of `s`, keyed by their DNA.
pub open spec fn nft_table(s: Seq<NFT>) -> Map<Dna, NFT> {
    keyed_table(s, |n: NFT| n.dna, |n: NFT| n)
}

/// No two holdings of `s` belong to the same account.
pub open spec fn holdings_unique(s: Seq<Holding>) -> bool {
    keys_unique(s, |h: Holding| h.account)
}

/// The lists of `s`, keyed by their account.
pub open spec fn holding_table(s: Seq<Holding>) -> Map<AccountId, Seq<Dna>> {
    keyed_table(s, |h: Holding| h.account, |h: Holding| h.nfts@)
}

pub proof fn lemma_keyed_at<E, K, V>(s: Seq<E>, key: spec_fn(E) -> K, val: spec_fn(E) -> V, i: int)
    requires
        keys_unique(s, key),
        0 <= i < s.len(),
    ensures
        keyed_table(s, key, val).contains_key(key(s[i])),
        keyed_table(s, key, val)[key(s[i])] == val(s[i]),
{
    let k = key(s[i]);
    assert(exists|j: int| 0 <= j < s.len() && key(s[j]) == k);
    let j = choose|j: int| 0 <= j < s.len() && key(s[j]) == k;
    if j < i {
        assert(key(s[j]) != key(s[i]));
    } else if i < j {
        assert(key(s[i]) != key(s[j]));
    }
}

pub proof fn lemma_keyed_push<E, K, V>(s: Seq<E>, key: spec_fn(E) -> K, val: spec_fn(E) -> V, e: E)
    requires
        keys_unique(s, key),
        !keyed_table(s, key, val).contains_key(key(e)),
    ensures
        keys_unique(s.push(e), key),
        keyed_table(s.push(e), key, val) =~= keyed_table(s, key, val).insert(key(e), val(e)),
{
    let t = s.push(e);
    let m = keyed_table(s, key, val);
    assert forall|i: int, j: int| 0 <= i < j < t.len() implies key(t[i]) != key(t[j]) by {
        if j == s.len() {
            if key(t[i]) == key(e) {
                assert(0 <= i < s.len() && key(s[i]) == key(e));
            }
        } else {
            assert(t[i] == s[i] && t[j] == s[j]);
        }
    }
    assert forall|k: K| #[trigger] keyed_table(t, key, val).contains_key(k) <==> m.insert(key(e), val(e)).contains_key(k) by {
        if m.contains_key(k) {
            let i = choose|i: int| 0 <= i < s.len() && key(s[i]) == k;
            assert(t[i] == s[i]);
        }
        if k == key(e) {
            assert(t[s.len() as int] == e);
        }
        if keyed_table(t, key, val).contains_key(k) {
            let i = choose|i: int| 0 <= i < t.len() && key(t[i]) == k;
            if i < s.len() {
                assert(t[i] == s[i]);
            }
        }
    }
    assert forall|k: K| #[trigger] keyed_table(t, key, val).contains_key(k) implies keyed_table(t, key, val)[k] == m.insert(key(e), val(e))[k] by {
        let i = choose|i: int| 0 <= i < t.len() && key(t[i]) == k;
        lemma_keyed_at(t, key, val, i);
        if i < s.len() {
            assert(t[i] == s[i]);
            lemma_keyed_at(s, key, val, i);
        }
    }
}

pub proof fn lemma_keyed_update<E, K, V>(s: Seq<E>, key: spec_fn(E) -> K, val: spec_fn(E) -> V, i: int, e: E)
    requires
        keys_unique(s, key),
        0 <= i < s.len(),
        key(e) == key(s[i]),
    ensures
        keys_unique(s.update(i, e), key),
        keyed_table(s.update(i, e), key, val) =~= keyed_table(s, key, val).insert(key(e), val(e)),
{
    let t = s.update(i, e);
    let m = keyed_table(s, key, val);
    assert forall|a: int, b: int| 0 <= a < b < t.len() implies key(t[a]) != key(t[b]) by {
        assert(key(s[a]) != key(s[b]));
    }
    lemma_keyed_at(s, key, val, i);
    assert forall|k: K| #[trigger] keyed_table(t, key, val).contains_key(k) <==> m.insert(key(e), val(e)).contains_key(k) by {
        if m.contains_key(k) {
            let j = choose|j: int| 0 <= j < s.len() && key(s[j]) == k;
            assert(key(t[j]) == k);
        }
        if keyed_table(t, key, val).contains_key(k) {
            let j = choose|j: int| 0 <= j < t.len() && key(t[j]) == k;
            assert(key(s[j]) == k);
        }
    }
    assert forall|k: K| #[trigger] keyed_table(t, key, val).contains_key(k) implies keyed_table(t, key, val)[k] == m.insert(key(e), val(e))[k] by {
        let j = choose|j: int| 0 <= j < t.len() && key(t[j]) == k;
        lemma_keyed_at(t, key, val, j);
        if j != i {
            lemma_keyed_at(s, key, val, j);
        }
    }
}

pub proof fn lemma_nft_table_at(s: Seq<NFT>, i: int)
    requires
        nfts_unique(s),
        0 <= i < s.len(),
    ensures
        nft_table(s).contains_key(s[i].dna),
        nft_table(s)[s[i].dna] == s[i],
{
    lemma_keyed_at(s, |n: NFT| n.dna, |n: NFT| n, i);
}

pub proof fn lemma_nft_table_push(s: Seq<NFT>, n: NFT)
    requires
        nfts_unique(s),
        !nft_table(s).contains_key(n.dna),
    ensures
        nfts_unique(s.push(n)),
        nft_table(s.push(n)) =~= nft_table(s).insert(n.dna, n),
{
    lemma_keyed_push(s, |n: NFT| n.dna, |n: NFT| n, n);
}

pub proof fn lemma_nft_table_update(s: Seq<NFT>, i: int, n: NFT)
    requires
        nfts_unique(s),
        0 <= i < s.len(),
        n.dna == s[i].dna,
    ensures
        nfts_unique(s.update(i, n)),
        nft_table(s.update(i, n)) =~= nft_table(s).insert(n.dna, n),
{
    lemma_keyed_update(s, |n: NFT| n.dna, |n: NFT| n, i, n);
}

pub proof fn lemma_holding_table_at(s: Seq<Holding>, i: int)
    requires
        holdings_unique(s),
        0 <= i < s.len(),
    ensures
        holding_table(s).contains_key(s[i].account),
        holding_table(s)[s[i].account] == s[i].nfts@,
{
    lemma_keyed_at(s, |h: Holding| h.account, |h: Holding| h.nfts@, i);
}

pub proof fn lemma_holding_table_push(s: Seq<Holding>, h: Holding)
    requires
        holdings_unique(s),
        !holding_table(s).contains_key(h.account),
    ensures
        holdings_unique(s.push(h)),
        holding_table(s.push(h)) =~= holding_table(s).insert(h.account, h.nfts@),
{
    lemma_keyed_push(s, |h: Holding| h.account, |h: Holding| h.nfts@, h);
}

pub proof fn lemma_holding_table_update(s: Seq<Holding>, i: int, h: Holding)
    requires
        holdings_unique(s),
        0 <= i < s.len(),
        h.account == s[i].account,
    ensures
        holdings_unique(s.update(i, h)),
        holding_table(s.update(i, h)) =~= holding_table(s).insert(h.account, h.nfts@),
{
    lemma_keyed_update(s, |h: Holding| h.account, |h: Holding| h.nfts@, i, h);
}

} // verus!
