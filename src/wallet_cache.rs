//! Coins received by tracked secret keys, and the append-only accumulator of
//! all coins seen, whose positions the received coins remember.
use vstd::prelude::*;

use crate::block::copy_bytes;
use crate::hashing::hash_eq;

verus! {

/// An append-only accumulator of coins; a leaf's position is the number of
/// leaves appended before it.
pub struct MerkleTree {
    leaves: Vec<[u8; 32]>,
}

impl View for MerkleTree {
    type V = Seq<Seq<u8>>;

    closed spec fn view(&self) -> Seq<Seq<u8>> {
        self.leaves@.map_values(|l: [u8; 32]| l@)
    }
}

impl MerkleTree {
    pub fn new() -> (r: MerkleTree)
        ensures
            r@.len() == 0,
    {
        let r = MerkleTree { leaves: Vec::new() };
        assert(r@ =~= Seq::<Seq<u8>>::empty());
        r
    }

    pub fn len(&self) -> (r: usize)
        ensures
            r == self@.len(),
    {
        self.leaves.len()
    }

    /// Appends a leaf and returns the position it was given.
    pub fn append(&mut self, leaf: [u8; 32]) -> (r: u64)
        requires
            old(self)@.len() < u64::MAX,
        ensures
            final(self)@ == old(self)@.push(leaf@),
            r == old(self)@.len(),
    {
        let pos = self.leaves.len() as u64;
        self.leaves.push(leaf);
        assert(final(self)@ =~= old(self)@.push(leaf@));
        pos
    }
}

pub struct OwnCoinView {
    pub coin: Seq<u8>,
    pub note: Seq<u8>,
    pub leaf_position: u64,
}

/// A coin that a tracked secret key could open, with its decrypted note and
/// its position in the accumulator.
#[derive(Clone, Debug)]
pub struct OwnCoin {
    pub coin: [u8; 32],
    pub note: Vec<u8>,
    pub leaf_position: u64,
}

impl View for OwnCoin {
    type V = OwnCoinView;

    open spec fn view(&self) -> OwnCoinView {
        OwnCoinView { coin: self.coin@, note: self.note@, leaf_position: self.leaf_position }
    }
}

pub struct KeyCoins {
    secret: [u8; 32],
    coins: Vec<OwnCoin>,
}

pub struct KeyCoinsView {
    pub secret: Seq<u8>,
    pub coins: Seq<OwnCoinView>,
}

impl View for KeyCoins {
    type V = KeyCoinsView;

    closed spec fn view(&self) -> KeyCoinsView {
        KeyCoinsView { secret: self.secret@, coins: self.coins@.map_values(|c: OwnCoin| c@) }
    }
}

/// What decrypting a note gave, as bytes.
pub open spec fn note_view(n: Option<Vec<u8>>) -> Option<Seq<u8>> {
    match n {
        Some(b) => Some(b@),
        None => None,
    }
}

/// Some entry of `cache` tracks `secret`.
pub open spec fn is_tracked(cache: Seq<KeyCoinsView>, secret: Seq<u8>) -> bool {
    exists|i: int| 0 <= i < cache.len() && (#[trigger] cache[i]).secret == secret
}

/// `i` is the first entry of `cache` that tracks `secret`.
pub open spec fn first_entry(cache: Seq<KeyCoinsView>, secret: Seq<u8>, i: int) -> bool {
    &&& 0 <= i < cache.len()
    &&& cache[i].secret == secret
    &&& forall|j: int| 0 <= j < i ==> (#[trigger] cache[j]).secret != secret
}

/// The cache after `coin` went in at `pos`, with `notes[i]` the outcome of
/// decrypting its note with the secret of entry `i`.
pub open spec fn cache_after_coin(
    cache: Seq<KeyCoinsView>,
    coin: Seq<u8>,
    pos: u64,
    notes: Seq<Option<Seq<u8>>>,
) -> Seq<KeyCoinsView> {
    Seq::new(
        cache.len(),
        |i: int|
            match notes[i] {
                Some(note) => KeyCoinsView {
                    secret: cache[i].secret,
                    coins: cache[i].coins.push(
                        OwnCoinView { coin: coin, note: note, leaf_position: pos },
                    ),
                },
                None => cache[i],
            },
    )
}

pub struct WalletCacheView {
    pub cache: Seq<KeyCoinsView>,
    pub tree: Seq<Seq<u8>>,
}

/// The coins received by each tracked secret key, and the accumulator of
/// all coins seen.
pub struct WalletCache {
    cache: Vec<KeyCoins>,
    /// The entire accumulator state
    pub tree: MerkleTree,
}

impl View for WalletCache {
    type V = WalletCacheView;

    closed spec fn view(&self) -> WalletCacheView {
        WalletCacheView {
            cache: self.cache@.map_values(|k: KeyCoins| k@),
            tree: self.tree@,
        }
    }
}

fn copy_coin(c: &OwnCoin) -> (r: OwnCoin)
    ensures
        r@ == c@,
{
    OwnCoin { coin: c.coin, note: copy_bytes(&c.note), leaf_position: c.leaf_position }
}

impl WalletCache {
    pub fn new() -> (r: WalletCache)
        ensures
            r@.cache.len() == 0,
            r@.tree.len() == 0,
    {
        let r = WalletCache { cache: Vec::new(), tree: MerkleTree::new() };
        assert(r@.cache =~= Seq::<KeyCoinsView>::empty());
        r
    }

    /// Begins tracking the coins received by `secret`.
    pub fn track(&mut self, secret: [u8; 32])
        ensures
            final(self)@.cache == old(self)@.cache.push(
                KeyCoinsView { secret: secret@, coins: Seq::empty() },
            ),
            final(self)@.tree == old(self)@.tree,
    {
        let entry = KeyCoins { secret, coins: Vec::new() };
        assert(entry@.coins =~= Seq::<OwnCoinView>::empty());
        self.cache.push(entry);
        assert(final(self)@.cache =~= old(self)@.cache.push(
            KeyCoinsView { secret: secret@, coins: Seq::empty() },
        ));
    }

    /// Hands out the coins received by `secret` since the last call, and
    /// forgets them.
    pub fn get_received(&mut self, secret: &[u8; 32]) -> (r: Vec<OwnCoin>)
        requires
            is_tracked(old(self)@.cache, secret@),
        ensures
            exists|i: int|
                first_entry(old(self)@.cache, secret@, i) && r@.map_values(|c: OwnCoin| c@)
                    == old(self)@.cache[i].coins && final(self)@.cache == old(self)@.cache.update(
                    i,
                    KeyCoinsView { secret: secret@, coins: Seq::empty() },
                ),
            final(self)@.tree == old(self)@.tree,
    {
        let ghost cache = self@.cache;
        let mut i: usize = 0;
        while i < self.cache.len()
            invariant
                0 <= i <= self.cache.len(),
                cache == self@.cache,
                cache == old(self)@.cache,
                self@.tree == old(self)@.tree,
                is_tracked(cache, secret@),
                forall|j: int| 0 <= j < i ==> (#[trigger] cache[j]).secret != secret@,
            decreases self.cache.len() - i,
        {
            if hash_eq(&self.cache[i].secret, secret) {
                let mut out: Vec<OwnCoin> = Vec::new();
                let mut k: usize = 0;
                while k < self.cache[i].coins.len()
                    invariant
                        0 <= i < self.cache.len(),
                        cache == self@.cache,
                        cache == old(self)@.cache,
                        self@.tree == old(self)@.tree,
                        0 <= k <= self.cache[i as int].coins.len(),
                        out.len() == k,
                        forall|m: int|
                            0 <= m < k ==> out@[m]@ == self.cache[i as int].coins@[m]@,
                    decreases self.cache[i as int].coins.len() - k,
                {
                    out.push(copy_coin(&self.cache[i].coins[k]));
                    k = k + 1;
                }
                assert(cache[i as int] == self.cache@[i as int]@);
                assert(out@.map_values(|c: OwnCoin| c@) =~= cache[i as int].coins);
                let entry = KeyCoins { secret: *secret, coins: Vec::new() };
                assert(entry@.coins =~= Seq::<OwnCoinView>::empty());
                self.cache.set(i, entry);
                assert(final(self)@.cache =~= cache.update(
                    i as int,
                    KeyCoinsView { secret: secret@, coins: Seq::empty() },
                ));
                assert(first_entry(cache, secret@, i as int));
                assert(first_entry(old(self)@.cache, secret@, i as int) && out@.map_values(
                    |c: OwnCoin| c@,
                ) == old(self)@.cache[i as int].coins && final(self)@.cache == old(
                    self,
                )@.cache.update(i as int, KeyCoinsView { secret: secret@, coins: Seq::empty() }));
                return out;
            }
            assert(cache[i as int].secret != secret@);
            i = i + 1;
        }
        assert(false);
        Vec::new()
    }

    /// Appends `coin` to the accumulator, and records it as received by
    /// every tracked secret key that could decrypt its note: `notes[i]`
    /// holds what decrypting with the key of entry `i` gave, if anything.
    pub fn try_decrypt_note(&mut self, coin: [u8; 32], notes: &Vec<Option<Vec<u8>>>)
        requires
            notes.len() == old(self)@.cache.len(),
            old(self)@.tree.len() < u64::MAX,
        ensures
            final(self)@.tree == old(self)@.tree.push(coin@),
            final(self)@.cache == cache_after_coin(
                old(self)@.cache,
                coin@,
                old(self)@.tree.len() as u64,
                notes@.map_values(|n: Option<Vec<u8>>| note_view(n)),
            ),
    {
        let pos = self.tree.append(coin);
        let ghost cache = old(self)@.cache;
        let ghost nv = notes@.map_values(|n: Option<Vec<u8>>| note_view(n));
        let ghost target = cache_after_coin(cache, coin@, pos, nv);
        let mut i: usize = 0;
        while i < self.cache.len()
            invariant
                0 <= i <= self.cache.len(),
                self.cache.len() == cache.len(),
                notes.len() == cache.len(),
                nv == notes@.map_values(|n: Option<Vec<u8>>| note_view(n)),
                target == cache_after_coin(cache, coin@, pos, nv),
                self@.tree == old(self)@.tree.push(coin@),
                forall|j: int| 0 <= j < i ==> (#[trigger] self.cache@[j])@ == target[j],
                forall|j: int| i <= j < cache.len() ==> (#[trigger] self.cache@[j])@ == cache[j],
            decreases self.cache.len() - i,
        {
            match &notes[i] {
                Some(note) => {
                    let own = OwnCoin { coin, note: copy_bytes(note), leaf_position: pos };
                    let mut entry = KeyCoins { secret: self.cache[i].secret, coins: Vec::new() };
                    let mut k: usize = 0;
                    while k < self.cache[i].coins.len()
                        invariant
                            0 <= i < self.cache.len(),
                            0 <= k <= self.cache[i as int].coins.len(),
                            entry.coins.len() == k,
                            entry.secret == self.cache[i as int].secret,
                            forall|m: int|
                                0 <= m < k ==> entry.coins@[m]@ == self.cache[i as int].coins@[m]@,
                        decreases self.cache[i as int].coins.len() - k,
                    {
                        entry.coins.push(copy_coin(&self.cache[i].coins[k]));
                        k = k + 1;
                    }
                    entry.coins.push(own);
                    assert(entry@.coins =~= self.cache@[i as int]@.coins.push(own@));
                    assert(nv[i as int] == Some(note@));
                    self.cache.set(i, entry);
                },
                None => {
                    assert(nv[i as int] is None);
                },
            }
            i = i + 1;
        }
        assert(self@.cache =~= target);
    }
}

impl Default for WalletCache {
    fn default() -> (r: WalletCache)
        ensures
            r@.cache.len() == 0,
            r@.tree.len() == 0,
    {
        WalletCache::new()
    }
}

} // verus!
