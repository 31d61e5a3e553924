//! What verification asks of a key cache, and what it leaves there.
use crate::batch_verifier;
use crate::batch_verifier::{Verifier, VerifyInput};
use crate::bytes;
use crate::cache;
use crate::cache::{CachedPublicKey, KeyCache};
use crate::curve;
use crate::curve::Point;
use crate::edwards::PointTable;
use crate::encoding;
use vstd::prelude::*;

verus! {

/// An entry gives back the key, the table and the order flag that it was made of.
pub proof fn lemma_entry(encoded: [u8; 32], table: PointTable, small_order: bool, entry: CachedPublicKey)
    requires
        encoding::decodable(encoded@),
        table.is_table_of(encoding::decoded(encoded@)),
        small_order == (curve::smul(8, encoding::decoded(encoded@)) == (Point { x: 0, y: 1 })),
        call_ensures(CachedPublicKey::new, (encoded, table, small_order), entry),
    ensures
        forall|b: &[u8; 32]| #[trigger] call_ensures(CachedPublicKey::encoded, (&entry,), b) ==> b@ == encoded@,
        forall|t: &PointTable| #[trigger]
            call_ensures(CachedPublicKey::table, (&entry,), t) ==> t.point() == encoding::decoded(encoded@)
                && t.valid(),
        forall|flag: bool| #[trigger]
            call_ensures(CachedPublicKey::small_order, (&entry,), flag) ==> flag == small_order,
{
    assert forall|t: &PointTable| #[trigger] call_ensures(CachedPublicKey::table, (&entry,), t) implies t.point()
        == encoding::decoded(encoded@) && t.valid() by {
        t.lemma_is_table_of(encoding::decoded(encoded@));
    }
}

/// Insertions happen one after the other.
pub proof fn lemma_insertions<C: KeyCache>(before: C, entries: Seq<CachedPublicKey>, last: CachedPublicKey, after: C)
    ensures
        cache::insertions(before, Seq::empty(), after) == (before == after),
        cache::insertions(before, entries.push(last), after) == exists|middle: C|
            cache::insertions(before, entries, middle) && #[trigger] middle.inserts(last, &after),
{
    let more = entries.push(last);
    assert(more.drop_last() =~= entries);
    assert(more.last() == last);
    if cache::insertions(before, more, after) {
        let middle = choose|middle: C|
            cache::insertions(before, more.drop_last(), middle) && #[trigger] middle.inserts(more.last(), &after);
        assert(middle.inserts(last, &after));
    }
}

/// The lanes whose keys are inserted, in order.
proof fn lemma_missing_lanes(missing: Seq<bool>, keys: Seq<Seq<u8>>, n: nat) -> (lanes: Seq<int>)
    ensures
        lanes.len() == batch_verifier::missing_keys(missing, keys, n).len(),
        forall|j: int|
            0 <= j < lanes.len() ==> 0 <= #[trigger] lanes[j] < n && missing[lanes[j]] && encoding::decodable(
                keys[lanes[j]],
            ) && batch_verifier::missing_keys(missing, keys, n)[j] == keys[lanes[j]],
        forall|i: int, j: int| 0 <= i < j < lanes.len() ==> #[trigger] lanes[i] < #[trigger] lanes[j],
        forall|l: int|
            0 <= l < n && !(#[trigger] lanes.contains(l)) ==> !missing[l] || !encoding::decodable(keys[l]),
    decreases n,
{
    if n == 0 {
        Seq::empty()
    } else {
        let rest = lemma_missing_lanes(missing, keys, (n - 1) as nat);
        if missing[n - 1] && encoding::decodable(keys[n - 1]) {
            let lanes = rest.push(n - 1);
            assert forall|l: int| 0 <= l < n && !(#[trigger] lanes.contains(l)) implies !missing[l]
                || !encoding::decodable(keys[l]) by {
                if l == n - 1 {
                    assert(lanes[rest.len() as int] == l);
                } else if rest.contains(l) {
                    let j = choose|j: int| 0 <= j < rest.len() && rest[j] == l;
                    assert(lanes[j] == l);
                }
            }
            lanes
        } else {
            rest
        }
    }
}

/// What a chunk leaves in the cache. If no request has both an `S` below the group order and a key
/// that decodes, the cache stays as it is. Else entries are inserted, in the order of their lanes:
/// for every lane whose key decodes and that the lookup missed, and for no other.
pub proof fn lemma_chunk_cache<C: KeyCache>(before: C, inputs: Seq<VerifyInput>, after: C)
    requires
        inputs.len() == 8,
        batch_verifier::cache_after_chunk(before, inputs, after),
    ensures
        if exists|i: int|
            #![trigger inputs[i]]
            0 <= i < 8 && bytes::le_value(inputs[i].signature@.subrange(32, 64))
                < 0x1000000000000000000000000000000014def9dea2f79cd65812631a5cf5d3edint && encoding::decodable(
                inputs[i].public_key@,
            ) {
            exists|entries: Seq<CachedPublicKey>, lanes: Seq<int>|
                {
                    &&& #[trigger] cache::insertions(before, entries, after)
                    &&& #[trigger] lanes.len() == entries.len()
                    &&& forall|i: int, j: int| 0 <= i < j < lanes.len() ==> #[trigger] lanes[i] < #[trigger] lanes[j]
                    &&& forall|j: int|
                        0 <= j < lanes.len() ==> 0 <= #[trigger] lanes[j] < 8 && encoding::decodable(
                            inputs[lanes[j]].public_key@,
                        ) && entries[j].key() == inputs[lanes[j]].public_key@ && exists|
                            e: Option<&CachedPublicKey>,
                        | #[trigger]
                            before.finds(inputs[lanes[j]].public_key@, e) && !(e matches Some(found) && found.key()
                                == inputs[lanes[j]].public_key@)
                    &&& forall|l: int|
                        0 <= l < 8 && !(#[trigger] lanes.contains(l)) && encoding::decodable(inputs[l].public_key@)
                            ==> exists|e: Option<&CachedPublicKey>| #[trigger]
                            before.finds(inputs[l].public_key@, e) && (e matches Some(found) && found.key()
                                == inputs[l].public_key@)
                }
        } else {
            after == before
        },
{
    if exists|i: int|
        #![trigger inputs[i]]
        0 <= i < 8 && bytes::le_value(inputs[i].signature@.subrange(32, 64))
            < 0x1000000000000000000000000000000014def9dea2f79cd65812631a5cf5d3edint && encoding::decodable(
            inputs[i].public_key@,
        ) {
        let i = choose|i: int|
            #![trigger inputs[i]]
            0 <= i < 8 && bytes::le_value(inputs[i].signature@.subrange(32, 64))
                < 0x1000000000000000000000000000000014def9dea2f79cd65812631a5cf5d3edint && encoding::decodable(
                inputs[i].public_key@,
            );
        assert(inputs[i].well_encoded());
        let keys = batch_verifier::public_keys(inputs);
        let (missing, entries) = choose|missing: Seq<bool>, entries: Seq<CachedPublicKey>|
            {
                &&& missing.len() == 8
                &&& forall|i: int|
                    0 <= i < 8 ==> batch_verifier::is_missing(before, inputs[i].public_key@, #[trigger] missing[i])
                &&& #[trigger] batch_verifier::entries_for(
                    entries,
                    batch_verifier::missing_keys(missing, batch_verifier::public_keys(inputs), 8),
                )
                &&& cache::insertions(before, entries, after)
            };
        let lanes = lemma_missing_lanes(missing, keys, 8);
        assert(batch_verifier::encodings(entries) == batch_verifier::missing_keys(missing, keys, 8));
        assert(lanes.len() == entries.len());
        assert forall|j: int| 0 <= j < lanes.len() implies 0 <= #[trigger] lanes[j] < 8 && encoding::decodable(
            inputs[lanes[j]].public_key@,
        ) && entries[j].key() == inputs[lanes[j]].public_key@ && exists|e: Option<&CachedPublicKey>| #[trigger]
            before.finds(inputs[lanes[j]].public_key@, e) && !(e matches Some(found) && found.key()
                == inputs[lanes[j]].public_key@) by {
            let l = lanes[j];
            assert(keys[l] == inputs[l].public_key@);
            assert(batch_verifier::encodings(entries)[j] == entries[j].key());
            lemma_lookup(before, inputs[l].public_key@, missing[l]);
        }
        assert forall|l: int|
            0 <= l < 8 && !(#[trigger] lanes.contains(l)) && encoding::decodable(
                inputs[l].public_key@,
            ) implies exists|e: Option<&CachedPublicKey>| #[trigger]
            before.finds(inputs[l].public_key@, e) && (e matches Some(found) && found.key()
                == inputs[l].public_key@) by {
            assert(keys[l] == inputs[l].public_key@);
            lemma_lookup(before, inputs[l].public_key@, missing[l]);
        }
    }
}

proof fn lemma_lookup<C: KeyCache>(before: C, key: Seq<u8>, flag: bool)
    requires
        batch_verifier::is_missing(before, key, flag),
    ensures
        exists|e: Option<&CachedPublicKey>| #[trigger]
            before.finds(key, e) && flag == !(e matches Some(found) && found.key() == key),
{
    let r = choose|r: Option<&CachedPublicKey>| #[trigger]
        cache::looked_up(before, key, r) && flag == (r is None);
    let e = choose|e: Option<&CachedPublicKey>| #[trigger]
        before.finds(key, e) && r == cache::usable(e, key);
    assert(before.finds(key, e));
}

/// A chunk changes the cache by what [`lemma_chunk_cache`] says.
pub proof fn lemma_chunk_cache_effect<C: KeyCache>(inputs: [VerifyInput; 8])
    ensures
        forall|v: &mut Verifier<C>, out: &mut [bool; 8]| #[trigger]
            call_ensures(Verifier::<C>::try_verify_chunk, (v, &inputs, out), ())
                ==> batch_verifier::cache_after_chunk(v.spec_cache(), inputs@, final(v).spec_cache()),
{
}

/// A batch of fewer than three requests leaves the cache alone. A larger one changes it chunk by
/// chunk: requests `8 n` to `8 n + 7` are chunk `n`, and the first request of a chunk fills it up.
pub proof fn lemma_batch_cache_effect<C: KeyCache>(inputs: &[VerifyInput])
    ensures
        forall|v: &mut Verifier<C>, out: &mut [bool]| #[trigger]
            call_ensures(Verifier::<C>::verify_batch, (v, inputs, out), ()) && inputs@.len() < 3
                ==> final(v).spec_cache() == v.spec_cache(),
        forall|v: &mut Verifier<C>, out: &mut [bool]| #[trigger]
            call_ensures(Verifier::<C>::verify_batch, (v, inputs, out), ()) && inputs@.len() >= 3
                ==> exists|states: Seq<C>|
                {
                    &&& 8 * (#[trigger] states.len() - 2) < inputs@.len() <= 8 * (states.len() - 1)
                    &&& states[0] == v.spec_cache()
                    &&& states.last() == final(v).spec_cache()
                    &&& forall|n: int|
                        0 <= n < states.len() - 1 ==> batch_verifier::cache_after_chunk(
                            #[trigger] states[n],
                            Seq::new(
                                8,
                                |l: int|
                                    if 8 * n + l < inputs@.len() {
                                        inputs@[8 * n + l]
                                    } else {
                                        inputs@[8 * n]
                                    },
                            ),
                            states[n + 1],
                        )
                },
{
    assert forall|v: &mut Verifier<C>, out: &mut [bool]| #[trigger]
        call_ensures(Verifier::<C>::verify_batch, (v, inputs, out), ()) && inputs@.len() >= 3 implies exists|
        states: Seq<C>,
    |
        {
            &&& 8 * (#[trigger] states.len() - 2) < inputs@.len() <= 8 * (states.len() - 1)
            &&& states[0] == v.spec_cache()
            &&& states.last() == final(v).spec_cache()
            &&& forall|n: int|
                0 <= n < states.len() - 1 ==> batch_verifier::cache_after_chunk(
                    #[trigger] states[n],
                    Seq::new(
                        8,
                        |l: int|
                            if 8 * n + l < inputs@.len() {
                                inputs@[8 * n + l]
                            } else {
                                inputs@[8 * n]
                            },
                    ),
                    states[n + 1],
                )
        } by {
        let states = lemma_states(
            v.spec_cache(),
            inputs@,
            ((inputs@.len() + 7) / 8) as nat,
            final(v).spec_cache(),
        );
        assert(states.len() - 1 == (inputs@.len() + 7) / 8);
        assert forall|n: int| 0 <= n < states.len() - 1 implies batch_verifier::cache_after_chunk(
            #[trigger] states[n],
            Seq::new(
                8,
                |l: int|
                    if 8 * n + l < inputs@.len() {
                        inputs@[8 * n + l]
                    } else {
                        inputs@[8 * n]
                    },
            ),
            states[n + 1],
        ) by {
            assert(batch_verifier::chunk_of(inputs@, n as nat) =~= Seq::new(
                8,
                |l: int|
                    if 8 * n + l < inputs@.len() {
                        inputs@[8 * n + l]
                    } else {
                        inputs@[8 * n]
                    },
            ));
        }
    }
}

proof fn lemma_states<C: KeyCache>(before: C, inputs: Seq<VerifyInput>, n: nat, after: C) -> (states: Seq<C>)
    requires
        batch_verifier::cache_after_chunks(before, inputs, n, after),
    ensures
        states.len() == n + 1,
        states[0] == before,
        states.last() == after,
        forall|m: int|
            0 <= m < n ==> batch_verifier::cache_after_chunk(
                #[trigger] states[m],
                batch_verifier::chunk_of(inputs, m as nat),
                states[m + 1],
            ),
    decreases n,
{
    if n == 0 {
        seq![after]
    } else {
        let middle = choose|middle: C|
            batch_verifier::cache_after_chunks(before, inputs, (n - 1) as nat, middle) && #[trigger]
            batch_verifier::cache_after_chunk(middle, batch_verifier::chunk_of(inputs, (n - 1) as nat), after);
        let rest = lemma_states(before, inputs, (n - 1) as nat, middle);
        let states = rest.push(after);
        assert forall|m: int| 0 <= m < n implies batch_verifier::cache_after_chunk(
            #[trigger] states[m],
            batch_verifier::chunk_of(inputs, m as nat),
            states[m + 1],
        ) by {
            if m < n - 1 {
                assert(rest[m] == states[m] && rest[m + 1] == states[m + 1]);
            } else {
                assert(states[m] == rest.last());
            }
        }
        states
    }
}

/// A changed cache is the cache from then on, and the policy stays.
pub proof fn lemma_cache_mut<C: KeyCache>()
    ensures
        forall|v: &mut Verifier<C>, r: &mut C| #[trigger]
            call_ensures(Verifier::<C>::cache_mut, (v,), r) ==> *r == v.spec_cache() && final(v).spec_cache()
                == *final(r) && final(v).spec_policy() == v.spec_policy(),
{
}

} // verus!
