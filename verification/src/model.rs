//! Spec-level model of the two storage maps: the registry, held as a sequence
//! of kitties with pairwise-distinct dna values, and the ownership index, held
//! as a sequence of per-account entries with pairwise-distinct accounts.

use vstd::prelude::*;

use crate::AccountId;
use crate::Kitty;
use crate::OwnedEntry;

verus! {

/// Registry lookup: the kitty whose dna bytes are `id`, searching from the end.
pub open spec fn kitty_lookup(s: Seq<Kitty>, id: Seq<u8>) -> Option<Kitty>
    decreases s.len(),
{
    if s.len() == 0 {
        None
    } else if s.last().dna@ == id {
        Some(s.last())
    } else {
        kitty_lookup(s.drop_last(), id)
    }
}

/// No two kitties in the registry share a dna.
pub open spec fn unique_dnas(s: Seq<Kitty>) -> bool {
    forall|i: int, j: int| 0 <= i < j < s.len() ==> s[i].dna@ != s[j].dna@
}

/// Ownership-index lookup: the ids owned by account `a`, searching from the end.
pub open spec fn owned_lookup(s: Seq<OwnedEntry>, a: AccountId) -> Seq<[u8; 32]>
    decreases s.len(),
{
    if s.len() == 0 {
        Seq::empty()
    } else if s.last().account == a {
        s.last().kitty_ids@
    } else {
        owned_lookup(s.drop_last(), a)
    }
}

/// No two entries of the ownership index describe the same account.
pub open spec fn unique_accounts(s: Seq<OwnedEntry>) -> bool {
    forall|i: int, j: int| 0 <= i < j < s.len() ==> s[i].account != s[j].account
}

/// How many elements of `s` carry the id bytes `id`.
pub open spec fn id_count(s: Seq<[u8; 32]>, id: Seq<u8>) -> nat
    decreases s.len(),
{
    if s.len() == 0 {
        0
    } else {
        id_count(s.drop_last(), id) + if s.last()@ == id {
            1nat
        } else {
            0nat
        }
    }
}

/// No id occurs twice in one account's collection.
pub open spec fn distinct_ids(s: Seq<[u8; 32]>) -> bool {
    forall|p: int, q: int| 0 <= p < q < s.len() ==> s[p]@ != s[q]@
}

/// No account's collection exceeds the capacity bound.
pub open spec fn all_owned_bounded(os: Seq<OwnedEntry>) -> bool {
    forall|a: AccountId| (#[trigger] owned_lookup(os, a)).len() <= 100
}

/// Every account's collection has pairwise-distinct ids.
pub open spec fn all_owned_distinct(os: Seq<OwnedEntry>) -> bool {
    forall|a: AccountId| distinct_ids(#[trigger] owned_lookup(os, a))
}

/// Every id of the ownership index names a registered kitty whose owner is
/// that very account.
pub open spec fn owned_in_registry(ks: Seq<Kitty>, os: Seq<OwnedEntry>) -> bool {
    forall|a: AccountId, p: int|
        0 <= p < owned_lookup(os, a).len() ==> (kitty_lookup(
            ks,
            (#[trigger] owned_lookup(os, a)[p])@,
        ) matches Some(k) && k.owner == a)
}

/// Every registered kitty appears in its owner's collection.
pub open spec fn registry_in_owned(ks: Seq<Kitty>, os: Seq<OwnedEntry>) -> bool {
    forall|j: int|
        0 <= j < ks.len() ==> id_count(owned_lookup(os, (#[trigger] ks[j]).owner), ks[j].dna@)
            >= 1
}

/// The registry holds no kitty under `id` exactly when no element carries it.
pub proof fn lemma_kitty_lookup_none(s: Seq<Kitty>, id: Seq<u8>)
    ensures
        (kitty_lookup(s, id) is None) <==> (forall|i: int|
            0 <= i < s.len() ==> (#[trigger] s[i]).dna@ != id),
    decreases s.len(),
{
    if s.len() > 0 {
        lemma_kitty_lookup_none(s.drop_last(), id);
        assert(forall|i: int| 0 <= i < s.len() - 1 ==> s.drop_last()[i] == s[i]);
        if s.last().dna@ == id {
            assert(s[s.len() - 1].dna@ == id);
        }
    }
}

/// With pairwise-distinct dnas, the lookup returns the element that carries `id`.
pub proof fn lemma_kitty_lookup_found(s: Seq<Kitty>, id: Seq<u8>, i: int)
    requires
        unique_dnas(s),
        0 <= i < s.len(),
        s[i].dna@ == id,
    ensures
        kitty_lookup(s, id) == Some(s[i]),
    decreases s.len(),
{
    if i == s.len() - 1 {
        assert(s.last() == s[i]);
    } else {
        assert(s.last().dna@ != id) by {
            assert(s[i].dna@ != s[s.len() - 1].dna@);
        }
        assert(forall|p: int| 0 <= p < s.len() - 1 ==> s.drop_last()[p] == s[p]);
        lemma_kitty_lookup_found(s.drop_last(), id, i);
    }
}

/// Overwriting the element at `i` with a kitty of the same dna moves only that
/// dna's lookup; every other lookup is untouched.
pub proof fn lemma_kitty_lookup_update(s: Seq<Kitty>, i: int, k: Kitty, id: Seq<u8>)
    requires
        unique_dnas(s),
        0 <= i < s.len(),
        k.dna@ == s[i].dna@,
    ensures
        kitty_lookup(s.update(i, k), id) == if id == k.dna@ {
            Some(k)
        } else {
            kitty_lookup(s, id)
        },
    decreases s.len(),
{
    let s2 = s.update(i, k);
    assert(s2.len() == s.len());
    if i == s.len() - 1 {
        assert(s2.last() == k);
        assert(s2.drop_last() =~= s.drop_last());
        if id != k.dna@ {
            assert(s.last() == s[i]);
        }
    } else {
        assert(s2.last() == s.last());
        assert(s2.drop_last() =~= s.drop_last().update(i, k));
        assert(forall|p: int| 0 <= p < s.len() - 1 ==> s.drop_last()[p] == s[p]);
        if s.last().dna@ == id {
            assert(s[i].dna@ != s[s.len() - 1].dna@);
            assert(id != k.dna@);
        } else {
            lemma_kitty_lookup_update(s.drop_last(), i, k, id);
        }
    }
}

/// Appending a kitty adds its dna to the registry and touches no other lookup.
pub proof fn lemma_kitty_lookup_push(s: Seq<Kitty>, k: Kitty, id: Seq<u8>)
    ensures
        kitty_lookup(s.push(k), id) == if id == k.dna@ {
            Some(k)
        } else {
            kitty_lookup(s, id)
        },
{
    assert(s.push(k).last() == k);
    assert(s.push(k).drop_last() =~= s);
}

/// An account with no entry owns nothing.
pub proof fn lemma_owned_lookup_absent(s: Seq<OwnedEntry>, a: AccountId)
    requires
        forall|i: int| 0 <= i < s.len() ==> (#[trigger] s[i]).account != a,
    ensures
        owned_lookup(s, a) == Seq::<[u8; 32]>::empty(),
    decreases s.len(),
{
    if s.len() > 0 {
        assert(forall|i: int| 0 <= i < s.len() - 1 ==> s.drop_last()[i] == s[i]);
        lemma_owned_lookup_absent(s.drop_last(), a);
    }
}

/// With pairwise-distinct accounts, the lookup returns the entry of `a`.
pub proof fn lemma_owned_lookup_found(s: Seq<OwnedEntry>, a: AccountId, i: int)
    requires
        unique_accounts(s),
        0 <= i < s.len(),
        s[i].account == a,
    ensures
        owned_lookup(s, a) == s[i].kitty_ids@,
    decreases s.len(),
{
    if i == s.len() - 1 {
        assert(s.last() == s[i]);
    } else {
        assert(s[i].account != s[s.len() - 1].account);
        assert(forall|p: int| 0 <= p < s.len() - 1 ==> s.drop_last()[p] == s[p]);
        lemma_owned_lookup_found(s.drop_last(), a, i);
    }
}

/// Overwriting the entry at `i` with one of the same account changes only that
/// account's collection; every other account's collection is untouched.
pub proof fn lemma_owned_lookup_update(s: Seq<OwnedEntry>, i: int, e: OwnedEntry, b: AccountId)
    requires
        unique_accounts(s),
        0 <= i < s.len(),
        e.account == s[i].account,
    ensures
        owned_lookup(s.update(i, e), b) == if b == s[i].account {
            e.kitty_ids@
        } else {
            owned_lookup(s, b)
        },
    decreases s.len(),
{
    let s2 = s.update(i, e);
    assert(s2.len() == s.len());
    if i == s.len() - 1 {
        assert(s2.last() == e);
        assert(s2.drop_last() =~= s.drop_last());
        if b != s[i].account {
            assert(s.last() == s[i]);
        }
    } else {
        assert(s2.last() == s.last());
        assert(s2.drop_last() =~= s.drop_last().update(i, e));
        assert(forall|p: int| 0 <= p < s.len() - 1 ==> s.drop_last()[p] == s[p]);
        if s.last().account == b {
            assert(s[i].account != s[s.len() - 1].account);
        } else {
            lemma_owned_lookup_update(s.drop_last(), i, e, b);
        }
    }
}

/// Appending a fresh entry gives its account that collection and touches no
/// other account's collection.
pub proof fn lemma_owned_lookup_push(s: Seq<OwnedEntry>, e: OwnedEntry, b: AccountId)
    ensures
        owned_lookup(s.push(e), b) == if b == e.account {
            e.kitty_ids@
        } else {
            owned_lookup(s, b)
        },
{
    assert(s.push(e).last() == e);
    assert(s.push(e).drop_last() =~= s);
}

/// Appending an id raises its own count by one and no other count.
pub proof fn lemma_id_count_push(s: Seq<[u8; 32]>, x: [u8; 32], id: Seq<u8>)
    ensures
        id_count(s.push(x), id) == id_count(s, id) + if x@ == id {
            1nat
        } else {
            0nat
        },
{
    assert(s.push(x).last() == x);
    assert(s.push(x).drop_last() =~= s);
}

/// Overwriting the id at `i` trades its count for the new id's count.
pub proof fn lemma_id_count_update(s: Seq<[u8; 32]>, i: int, x: [u8; 32], id: Seq<u8>)
    requires
        0 <= i < s.len(),
    ensures
        id_count(s.update(i, x), id) == id_count(s, id) - (if s[i]@ == id {
            1int
        } else {
            0int
        }) + (if x@ == id {
            1int
        } else {
            0int
        }),
    decreases s.len(),
{
    let s2 = s.update(i, x);
    assert(s2.len() == s.len());
    if i == s.len() - 1 {
        assert(s2.last() == x);
        assert(s2.drop_last() =~= s.drop_last());
        assert(s.last() == s[i]);
    } else {
        assert(s2.last() == s.last());
        assert(s2.drop_last() =~= s.drop_last().update(i, x));
        assert(s.drop_last()[i] == s[i]);
        lemma_id_count_update(s.drop_last(), i, x, id);
    }
}

/// Compact-removal of the id at `i` lowers its count by one and no other count.
pub proof fn lemma_id_count_swap_remove(s: Seq<[u8; 32]>, i: int, id: Seq<u8>)
    requires
        0 <= i < s.len(),
    ensures
        id_count(s.update(i, s.last()).drop_last(), id) == id_count(s, id) - (if s[i]@ == id {
            1int
        } else {
            0int
        }),
{
    let s2 = s.update(i, s.last());
    if i == s.len() - 1 {
        assert(s2 =~= s);
        assert(s.last() == s[i]);
    } else {
        lemma_id_count_update(s, i, s.last(), id);
        assert(s2.last() == s.last());
    }
}

/// A count of zero means no element carries the id, and conversely.
pub proof fn lemma_id_count_zero(s: Seq<[u8; 32]>, id: Seq<u8>)
    ensures
        (id_count(s, id) == 0) <==> (forall|p: int|
            0 <= p < s.len() ==> (#[trigger] s[p])@ != id),
    decreases s.len(),
{
    if s.len() > 0 {
        lemma_id_count_zero(s.drop_last(), id);
        assert(forall|p: int| 0 <= p < s.len() - 1 ==> s.drop_last()[p] == s[p]);
        if s.last()@ == id {
            assert(s[s.len() - 1]@ == id);
        }
    }
}

/// With pairwise-distinct ids, an id that is present is present exactly once.
pub proof fn lemma_id_count_distinct(s: Seq<[u8; 32]>, id: Seq<u8>, p: int)
    requires
        distinct_ids(s),
        0 <= p < s.len(),
        s[p]@ == id,
    ensures
        id_count(s, id) == 1,
    decreases s.len(),
{
    if p == s.len() - 1 {
        assert(s.last() == s[p]);
        assert(forall|q: int| 0 <= q < s.len() - 1 ==> (#[trigger] s.drop_last()[q])@ != id) by {
            assert(forall|q: int| 0 <= q < s.len() - 1 ==> s.drop_last()[q] == s[q]);
            assert(forall|q: int| 0 <= q < s.len() - 1 ==> (#[trigger] s[q])@ != s[p]@);
        }
        lemma_id_count_zero(s.drop_last(), id);
    } else {
        assert(s[p]@ != s[s.len() - 1]@);
        assert(forall|q: int| 0 <= q < s.len() - 1 ==> s.drop_last()[q] == s[q]);
        lemma_id_count_distinct(s.drop_last(), id, p);
    }
}

/// Compact-removal keeps the remaining ids pairwise distinct.
pub proof fn lemma_distinct_swap_remove(s: Seq<[u8; 32]>, i: int)
    requires
        distinct_ids(s),
        0 <= i < s.len(),
    ensures
        distinct_ids(s.update(i, s.last()).drop_last()),
{
    let s2 = s.update(i, s.last()).drop_last();
    assert forall|p: int, q: int| 0 <= p < q < s2.len() implies s2[p]@ != s2[q]@ by {
        let sp = if p == i {
            s.len() - 1
        } else {
            p
        };
        let sq = if q == i {
            s.len() - 1
        } else {
            q
        };
        assert(s2[p] == s[sp]);
        assert(s2[q] == s[sq]);
    }
}

/// After the mint writes — the fresh kitty appended to the registry and its
/// dna appended to the owner's collection — every invariant holds again, and
/// only the fresh dna's registry lookup changed.
pub proof fn lemma_mint_wf(
    ks: Seq<Kitty>,
    os: Seq<OwnedEntry>,
    os2: Seq<OwnedEntry>,
    owner: AccountId,
    dna: [u8; 32],
)
    requires
        unique_dnas(ks),
        all_owned_bounded(os),
        all_owned_distinct(os),
        owned_in_registry(ks, os),
        registry_in_owned(ks, os),
        kitty_lookup(ks, dna@) is None,
        owned_lookup(os, owner).len() < 100,
        forall|b: AccountId|
            #[trigger] owned_lookup(os2, b) == if b == owner {
                owned_lookup(os, owner).push(dna)
            } else {
                owned_lookup(os, b)
            },
    ensures
        unique_dnas(ks.push(Kitty { dna, owner, price: None })),
        all_owned_bounded(os2),
        all_owned_distinct(os2),
        owned_in_registry(ks.push(Kitty { dna, owner, price: None }), os2),
        registry_in_owned(ks.push(Kitty { dna, owner, price: None }), os2),
        forall|id: Seq<u8>|
            #[trigger] kitty_lookup(ks.push(Kitty { dna, owner, price: None }), id) == if id
                == dna@ {
                Some(Kitty { dna, owner, price: None })
            } else {
                kitty_lookup(ks, id)
            },
{
    let k = (Kitty { dna, owner, price: None });
    let ks2 = ks.push(k);
    let ow = owned_lookup(os, owner);
    lemma_kitty_lookup_none(ks, dna@);
    assert forall|id: Seq<u8>| #[trigger] kitty_lookup(ks2, id) == (if id == dna@ {
        Some(k)
    } else {
        kitty_lookup(ks, id)
    }) by {
        lemma_kitty_lookup_push(ks, k, id);
    }
    assert forall|i: int, j: int| 0 <= i < j < ks2.len() implies ks2[i].dna@ != ks2[j].dna@ by {
        if j == ks.len() {
            assert(ks2[i] == ks[i]);
        }
    }
    assert(unique_dnas(ks2));
    // The fresh dna is in nobody's collection: every indexed id is registered,
    // the fresh one is not.
    assert forall|p: int| 0 <= p < ow.len() implies (#[trigger] ow[p])@ != dna@ by {
        assert(kitty_lookup(ks, ow[p]@) matches Some(kk) && kk.owner == owner);
    }
    assert forall|a: AccountId| (#[trigger] owned_lookup(os2, a)).len() <= 100 by {
        if a == owner {
            assert(owned_lookup(os2, a) == ow.push(dna));
        }
    }
    assert forall|a: AccountId| distinct_ids(#[trigger] owned_lookup(os2, a)) by {
        if a == owner {
            let ow2 = ow.push(dna);
            assert forall|p: int, q: int| 0 <= p < q < ow2.len() implies ow2[p]@ != ow2[q]@ by {
                if q == ow.len() {
                    assert(ow2[p] == ow[p]);
                    assert(ow2[q] == dna);
                } else {
                    assert(ow2[p] == ow[p]);
                    assert(ow2[q] == ow[q]);
                    assert(distinct_ids(ow));
                }
            }
        }
    }
    assert forall|a: AccountId, p: int|
        0 <= p < owned_lookup(os2, a).len() implies (kitty_lookup(
        ks2,
        (#[trigger] owned_lookup(os2, a)[p])@,
    ) matches Some(kk) && kk.owner == a) by {
        if a == owner {
            let ow2 = ow.push(dna);
            if p < ow.len() {
                assert(ow2[p] == ow[p]);
                assert(kitty_lookup(ks, ow[p]@) matches Some(kk) && kk.owner == owner);
                assert(ow[p]@ != dna@);
            } else {
                assert(ow2[p] == dna);
            }
        } else {
            let kid = owned_lookup(os, a)[p];
            assert(kitty_lookup(ks, kid@) matches Some(kk) && kk.owner == a);
            assert(kid@ != dna@);
        }
    }
    assert forall|j: int|
        0 <= j < ks2.len() implies id_count(
        owned_lookup(os2, (#[trigger] ks2[j]).owner),
        ks2[j].dna@,
    ) >= 1 by {
        if j < ks.len() {
            assert(ks2[j] == ks[j]);
            let aj = ks[j].owner;
            assert(id_count(owned_lookup(os, aj), ks[j].dna@) >= 1);
            if aj == owner {
                lemma_id_count_push(ow, dna, ks[j].dna@);
            }
        } else {
            assert(ks2[j] == k);
            lemma_id_count_push(ow, dna, dna@);
        }
    }
}

/// After a price write — the kitty at `ki` replaced by one with the same dna
/// and the same owner — every invariant holds again, and only that dna's
/// registry lookup changed.
pub proof fn lemma_replace_same_owner_wf(
    ks: Seq<Kitty>,
    ks2: Seq<Kitty>,
    os: Seq<OwnedEntry>,
    ki: int,
    k2: Kitty,
)
    requires
        unique_dnas(ks),
        owned_in_registry(ks, os),
        registry_in_owned(ks, os),
        0 <= ki < ks.len(),
        k2.dna@ == ks[ki].dna@,
        k2.owner == ks[ki].owner,
        ks2 == ks.update(ki, k2),
    ensures
        unique_dnas(ks2),
        owned_in_registry(ks2, os),
        registry_in_owned(ks2, os),
        forall|id: Seq<u8>|
            #[trigger] kitty_lookup(ks2, id) == if id == ks[ki].dna@ {
                Some(k2)
            } else {
                kitty_lookup(ks, id)
            },
{
    lemma_kitty_lookup_found(ks, ks[ki].dna@, ki);
    assert forall|id: Seq<u8>| #[trigger] kitty_lookup(ks2, id) == (if id == ks[ki].dna@ {
        Some(k2)
    } else {
        kitty_lookup(ks, id)
    }) by {
        lemma_kitty_lookup_update(ks, ki, k2, id);
    }
    assert forall|i: int, j: int| 0 <= i < j < ks2.len() implies ks2[i].dna@ != ks2[j].dna@ by {
        assert(ks2[i].dna@ == ks[i].dna@);
        assert(ks2[j].dna@ == ks[j].dna@);
    }
    assert forall|a: AccountId, q: int|
        0 <= q < owned_lookup(os, a).len() implies (kitty_lookup(
        ks2,
        (#[trigger] owned_lookup(os, a)[q])@,
    ) matches Some(kk) && kk.owner == a) by {
        let kid = owned_lookup(os, a)[q];
        assert(kitty_lookup(ks, kid@) matches Some(kk) && kk.owner == a);
        if kid@ == ks[ki].dna@ {
            assert(kitty_lookup(ks, kid@) == Some(ks[ki]));
        }
    }
    assert forall|j: int|
        0 <= j < ks2.len() implies id_count(
        owned_lookup(os, (#[trigger] ks2[j]).owner),
        ks2[j].dna@,
    ) >= 1 by {
        assert(ks2[j].owner == ks[j].owner);
        assert(ks2[j].dna@ == ks[j].dna@);
        assert(id_count(owned_lookup(os, ks[j].owner), ks[j].dna@) >= 1);
    }
}

/// After the transfer writes — the kitty at `ki` re-owned to `to` with its
/// price cleared, its id appended to `to`'s collection and compact-removed
/// from `from`'s — every invariant holds again; only the transferred dna's
/// registry lookup changed, `to` gained exactly that id, and `from` lost
/// exactly that id.
pub proof fn lemma_transfer_wf(
    ks: Seq<Kitty>,
    ks2: Seq<Kitty>,
    os: Seq<OwnedEntry>,
    os2: Seq<OwnedEntry>,
    from: AccountId,
    to: AccountId,
    kitty_id: [u8; 32],
    ki: int,
    p: int,
)
    requires
        unique_dnas(ks),
        all_owned_bounded(os),
        all_owned_distinct(os),
        owned_in_registry(ks, os),
        registry_in_owned(ks, os),
        from != to,
        0 <= ki < ks.len(),
        ks[ki].dna@ == kitty_id@,
        ks[ki].owner == from,
        ks2 == ks.update(ki, (Kitty { dna: ks[ki].dna, owner: to, price: None })),
        owned_lookup(os, to).len() < 100,
        0 <= p < owned_lookup(os, from).len(),
        owned_lookup(os, from)[p]@ == kitty_id@,
        forall|b: AccountId|
            #[trigger] owned_lookup(os2, b) == if b == to {
                owned_lookup(os, to).push(kitty_id)
            } else if b == from {
                owned_lookup(os, from).update(p, owned_lookup(os, from).last()).drop_last()
            } else {
                owned_lookup(os, b)
            },
    ensures
        unique_dnas(ks2),
        all_owned_bounded(os2),
        all_owned_distinct(os2),
        owned_in_registry(ks2, os2),
        registry_in_owned(ks2, os2),
        forall|id: Seq<u8>|
            #[trigger] kitty_lookup(ks2, id) == if id == kitty_id@ {
                Some(ks2[ki])
            } else {
                kitty_lookup(ks, id)
            },
        id_count(owned_lookup(os2, to), kitty_id@) == 1,
        id_count(owned_lookup(os2, from), kitty_id@) == 0,
        forall|id: Seq<u8>|
            id != kitty_id@ ==> id_count(owned_lookup(os2, from), id) == id_count(
                owned_lookup(os, from),
                id,
            ),
        owned_lookup(os2, from).len() == owned_lookup(os, from).len() - 1,
{
    let k2 = (Kitty { dna: ks[ki].dna, owner: to, price: None });
    let ow_to = owned_lookup(os, to);
    let ow_from = owned_lookup(os, from);
    let tl2 = ow_to.push(kitty_id);
    let fl2 = ow_from.update(p, ow_from.last()).drop_last();
    lemma_kitty_lookup_found(ks, kitty_id@, ki);
    assert forall|id: Seq<u8>| #[trigger] kitty_lookup(ks2, id) == (if id == kitty_id@ {
        Some(k2)
    } else {
        kitty_lookup(ks, id)
    }) by {
        lemma_kitty_lookup_update(ks, ki, k2, id);
    }
    assert forall|i: int, j: int| 0 <= i < j < ks2.len() implies ks2[i].dna@ != ks2[j].dna@ by {
        assert(ks2[i].dna@ == ks[i].dna@);
        assert(ks2[j].dna@ == ks[j].dna@);
    }
    // The transferred id is in nobody's collection but `from`'s: any indexed id
    // resolves to its account as owner, and the id resolves to `from`.
    assert forall|q: int| 0 <= q < ow_to.len() implies (#[trigger] ow_to[q])@ != kitty_id@ by {
        assert(kitty_lookup(ks, ow_to[q]@) matches Some(kk) && kk.owner == to);
    }
    lemma_id_count_zero(ow_to, kitty_id@);
    lemma_id_count_push(ow_to, kitty_id, kitty_id@);
    assert(id_count(tl2, kitty_id@) == 1);
    assert(distinct_ids(ow_from));
    lemma_id_count_distinct(ow_from, kitty_id@, p);
    lemma_id_count_swap_remove(ow_from, p, kitty_id@);
    assert(id_count(fl2, kitty_id@) == 0);
    lemma_id_count_zero(fl2, kitty_id@);
    assert forall|id: Seq<u8>|
        id != kitty_id@ implies id_count(#[trigger] owned_lookup(os2, from), id) == id_count(
        ow_from,
        id,
    ) by {
        lemma_id_count_swap_remove(ow_from, p, id);
    }
    // Capacity.
    assert forall|a: AccountId| (#[trigger] owned_lookup(os2, a)).len() <= 100 by {
        if a == to {
            assert(owned_lookup(os2, a) == tl2);
        } else if a == from {
            assert(owned_lookup(os2, a) == fl2);
        }
    }
    // Distinctness.
    assert forall|a: AccountId| distinct_ids(#[trigger] owned_lookup(os2, a)) by {
        if a == to {
            assert forall|x: int, y: int| 0 <= x < y < tl2.len() implies tl2[x]@ != tl2[y]@ by {
                if y == ow_to.len() {
                    assert(tl2[x] == ow_to[x]);
                    assert(tl2[y] == kitty_id);
                } else {
                    assert(tl2[x] == ow_to[x]);
                    assert(tl2[y] == ow_to[y]);
                    assert(distinct_ids(ow_to));
                }
            }
        } else if a == from {
            lemma_distinct_swap_remove(ow_from, p);
        }
    }
    // Every indexed id still names a registered kitty owned by that account.
    assert forall|a: AccountId, q: int|
        0 <= q < owned_lookup(os2, a).len() implies (kitty_lookup(
        ks2,
        (#[trigger] owned_lookup(os2, a)[q])@,
    ) matches Some(kk) && kk.owner == a) by {
        if a == to {
            if q < ow_to.len() {
                assert(tl2[q] == ow_to[q]);
                assert(kitty_lookup(ks, ow_to[q]@) matches Some(kk) && kk.owner == to);
                assert(ow_to[q]@ != kitty_id@);
            } else {
                assert(tl2[q] == kitty_id);
            }
        } else if a == from {
            let sp = if q == p {
                ow_from.len() - 1
            } else {
                q
            };
            assert(fl2[q] == ow_from[sp]);
            assert(kitty_lookup(ks, ow_from[sp]@) matches Some(kk) && kk.owner == from);
            assert(fl2[q]@ != kitty_id@);
        } else {
            let kid = owned_lookup(os, a)[q];
            assert(kitty_lookup(ks, kid@) matches Some(kk) && kk.owner == a);
            assert(kid@ != kitty_id@) by {
                if kid@ == kitty_id@ {
                    assert(kitty_lookup(ks, kid@) == Some(ks[ki]));
                }
            }
        }
    }
    // Every registered kitty is still indexed under its owner.
    assert forall|j: int|
        0 <= j < ks2.len() implies id_count(
        owned_lookup(os2, (#[trigger] ks2[j]).owner),
        ks2[j].dna@,
    ) >= 1 by {
        if j == ki {
            assert(ks2[j] == k2);
        } else {
            assert(ks2[j] == ks[j]);
            let aj = ks[j].owner;
            assert(id_count(owned_lookup(os, aj), ks[j].dna@) >= 1);
            assert(ks[j].dna@ != kitty_id@);
            if aj == to {
                lemma_id_count_push(ow_to, kitty_id, ks[j].dna@);
            } else if aj == from {
                lemma_id_count_swap_remove(ow_from, p, ks[j].dna@);
            }
        }
    }
}

} // verus!
