//! Caches of decoded public keys.
use crate::edwards::PointTable;
use crate::encoding;
use crate::signature;
use vstd::prelude::*;

verus! {

/// A decoded public key: its encoding, the table of its multiples, and whether it has small
/// order.
#[derive(Debug)]
pub struct CachedPublicKey {
    encoded: [u8; 32],
    table: PointTable,
    small_order: bool,
}

impl CachedPublicKey {
    /// The encoding of the key.
    pub closed spec fn key(&self) -> Seq<u8> {
        self.encoded@
    }

    /// The key decodes, the table holds its multiples, and the order flag is right.
    #[verifier::type_invariant]
    pub closed spec fn sound(&self) -> bool {
        &&& encoding::decodable(self.encoded@)
        &&& self.table.is_table_of(encoding::decoded(self.encoded@))
        &&& self.small_order == signature::small_order(encoding::decoded(self.encoded@))
    }

    /// A key whose table and order are known.
    pub fn new(encoded: [u8; 32], table: PointTable, small_order: bool) -> (r: Self)
        requires
            encoding::decodable(encoded@),
            table.is_table_of(encoding::decoded(encoded@)),
            small_order == signature::small_order(encoding::decoded(encoded@)),
        ensures
            r.key() == encoded@,
            r.sound(),
    {
        CachedPublicKey { encoded, table, small_order }
    }

    /// The encoding of the key.
    pub fn encoded(&self) -> (r: &[u8; 32])
        ensures
            r@ == self.key(),
    {
        &self.encoded
    }

    /// The table of multiples of the key.
    pub fn table(&self) -> (r: &PointTable)
        ensures
            encoding::decodable(self.key()),
            r.is_table_of(encoding::decoded(self.key())),
    {
        proof {
            use_type_invariant(self);
        }
        &self.table
    }

    /// Whether the order of the key divides eight.
    pub fn small_order(&self) -> (r: bool)
        ensures
            r == signature::small_order(encoding::decoded(self.key())),
    {
        proof {
            use_type_invariant(self);
        }
        self.small_order
    }
}

/// A store of decoded public keys. It may forget keys at any time, and nothing is asked of what
/// it returns: a verifier uses an entry only for the key that the entry names.
///
/// An implementation can say what its methods do by the two spec functions. As they stand they
/// say nothing.
pub trait KeyCache {
    /// Whether `get` may return `entry` for an encoded key.
    open spec fn finds(&self, encoded: Seq<u8>, entry: Option<&CachedPublicKey>) -> bool {
        true
    }

    /// Whether `insert` may turn this cache into `after`.
    open spec fn inserts(&self, key: CachedPublicKey, after: &Self) -> bool {
        true
    }

    /// The entry for an encoded key.
    fn get(&self, encoded: &[u8; 32]) -> (r: Option<&CachedPublicKey>)
        ensures
            self.finds(encoded@, r),
    ;

    /// Offers a decoded key.
    fn insert(&mut self, key: CachedPublicKey)
        ensures
            old(self).inserts(key, final(self)),
    ;
}

/// What is used of an entry that a cache returned for a key: the entry, unless it is one of
/// another key.
pub open spec fn usable<'a>(entry: Option<&'a CachedPublicKey>, key: Seq<u8>) -> Option<&'a CachedPublicKey> {
    if entry matches Some(e) && e.key() == key {
        entry
    } else {
        None
    }
}

/// `r` is what is used of an entry that `get` of the cache may return for a key.
pub open spec fn looked_up<C: KeyCache>(cache: C, key: Seq<u8>, r: Option<&CachedPublicKey>) -> bool {
    exists|entry: Option<&CachedPublicKey>| #[trigger] cache.finds(key, entry) && r == usable(entry, key)
}

/// `after` is what `before` may become when the entries are inserted in order.
pub open spec fn insertions<C: KeyCache>(before: C, entries: Seq<CachedPublicKey>, after: C) -> bool
    decreases entries.len(),
{
    if entries.len() == 0 {
        before == after
    } else {
        exists|middle: C|
            insertions(before, entries.drop_last(), middle) && #[trigger] middle.inserts(
                entries.last(),
                &after,
            )
    }
}

/// One more insertion.
pub proof fn lemma_insertions_push<C: KeyCache>(
    before: C,
    entries: Seq<CachedPublicKey>,
    middle: C,
    key: CachedPublicKey,
    after: C,
)
    requires
        insertions(before, entries, middle),
        middle.inserts(key, &after),
    ensures
        insertions(before, entries.push(key), after),
{
    assert(entries.push(key).drop_last() =~= entries);
    assert(entries.push(key).last() == key);
}

/// Insertions compose.
pub proof fn lemma_insertions_concat<C: KeyCache>(
    before: C,
    first: Seq<CachedPublicKey>,
    middle: C,
    second: Seq<CachedPublicKey>,
    after: C,
)
    requires
        insertions(before, first, middle),
        insertions(middle, second, after),
    ensures
        insertions(before, first + second, after),
    decreases second.len(),
{
    if second.len() == 0 {
        assert(first + second =~= first);
    } else {
        let m = choose|m: C|
            insertions(middle, second.drop_last(), m) && #[trigger] m.inserts(second.last(), &after);
        lemma_insertions_concat(before, first, middle, second.drop_last(), m);
        lemma_insertions_push(before, first + second.drop_last(), m, second.last(), after);
        assert((first + second.drop_last()).push(second.last()) =~= first + second);
    }
}

/// A cache that holds nothing.
#[derive(Clone, Copy, Debug)]
pub struct NullKeyCache {}

impl NullKeyCache {
    pub fn new() -> Self {
        NullKeyCache {  }
    }
}

impl Default for NullKeyCache {
    fn default() -> Self {
        Self::new()
    }
}

impl KeyCache for NullKeyCache {
    open spec fn finds(&self, encoded: Seq<u8>, entry: Option<&CachedPublicKey>) -> bool {
        entry is None
    }

    open spec fn inserts(&self, key: CachedPublicKey, after: &Self) -> bool {
        *after == *self
    }

    fn get(&self, _encoded: &[u8; 32]) -> (r: Option<&CachedPublicKey>) {
        None
    }

    fn insert(&mut self, _key: CachedPublicKey) {
    }
}

} // verus!
