//! The query engine: iterate the intersection of the entities present in two
//! component tables, yielding one tuple per entity that holds both
//! components.
//!
//! The join is agnostic to each table's backing strategy: it only relies on
//! the [`ComponentStorage`] contract. Callers must not mutate the joined
//! tables structurally while holding a result; value updates between joins
//! are fine. The order of one result follows the first table's iteration
//! order and is stable until that table is structurally mutated.

use vstd::prelude::*;
use crate::entity::EntityId;
use crate::storage::ComponentStorage;

verus! {

/// The join of `a` and `b` enumerated along `ids`: one tuple per identifier
/// of `ids` that holds a value in both maps, in order.
pub open spec fn joined_of<T, U>(
    ids: Seq<EntityId>,
    a: Map<EntityId, T>,
    b: Map<EntityId, U>,
) -> Seq<(EntityId, T, U)>
    decreases ids.len(),
{
    if ids.len() == 0 {
        Seq::empty()
    } else {
        let prefix = joined_of(ids.drop_last(), a, b);
        let id = ids.last();
        if a.contains_key(id) && b.contains_key(id) {
            prefix.push((id, a[id], b[id]))
        } else {
            prefix
        }
    }
}

/// Soundness of the join: every yielded tuple names an enumerated identifier
/// that holds both components, and carries exactly the two stored values.
pub proof fn lemma_joined_of_sound<T, U>(ids: Seq<EntityId>, a: Map<EntityId, T>, b: Map<
    EntityId,
    U,
>)
    ensures
        forall|k: int|
            0 <= k < joined_of(ids, a, b).len() ==> {
                let e = #[trigger] joined_of(ids, a, b)[k];
                &&& ids.contains(e.0)
                &&& a.contains_key(e.0)
                &&& b.contains_key(e.0)
                &&& e.1 == a[e.0]
                &&& e.2 == b[e.0]
            },
    decreases ids.len(),
{
    if ids.len() > 0 {
        lemma_joined_of_sound(ids.drop_last(), a, b);
        let prefix = joined_of(ids.drop_last(), a, b);
        let cur = joined_of(ids, a, b);
        assert forall|k: int|
            0 <= k < cur.len() implies {
            let e = #[trigger] cur[k];
            &&& ids.contains(e.0)
            &&& a.contains_key(e.0)
            &&& b.contains_key(e.0)
            &&& e.1 == a[e.0]
            &&& e.2 == b[e.0]
        } by {
            if k < prefix.len() {
                assert(cur[k] == prefix[k]);
                let w = choose|w: int|
                    0 <= w < ids.drop_last().len() && ids.drop_last()[w] == prefix[k].0;
                assert(ids[w] == prefix[k].0);
            } else {
                assert(cur[k] == (ids.last(), a[ids.last()], b[ids.last()]));
                assert(ids[ids.len() - 1] == ids.last());
            }
        }
    }
}

/// Completeness of the join: every identifier that holds both components and
/// is enumerated appears in the result, with its two stored values.
pub proof fn lemma_joined_of_complete<T, U>(
    ids: Seq<EntityId>,
    a: Map<EntityId, T>,
    b: Map<EntityId, U>,
    id: EntityId,
)
    requires
        ids.contains(id),
        a.contains_key(id),
        b.contains_key(id),
    ensures
        joined_of(ids, a, b).contains((id, a[id], b[id])),
    decreases ids.len(),
{
    let cur = joined_of(ids, a, b);
    if ids.last() == id {
        assert(cur[cur.len() - 1] == (id, a[id], b[id]));
    } else {
        let w = choose|w: int| 0 <= w < ids.len() && ids[w] == id;
        assert(ids.drop_last()[w] == id);
        assert(ids.drop_last().contains(id));
        lemma_joined_of_complete(ids.drop_last(), a, b, id);
        let prefix = joined_of(ids.drop_last(), a, b);
        let k = choose|k: int| 0 <= k < prefix.len() && prefix[k] == (id, a[id], b[id]);
        assert(cur[k] == (id, a[id], b[id]));
    }
}

/// The join never yields one entity twice when the enumeration is
/// duplicate-free.
pub proof fn lemma_joined_of_duplicate_free<T, U>(ids: Seq<EntityId>, a: Map<EntityId, T>, b: Map<
    EntityId,
    U,
>)
    requires
        forall|k1: int, k2: int| 0 <= k1 < k2 < ids.len() ==> ids[k1] != ids[k2],
    ensures
        forall|k1: int, k2: int|
            0 <= k1 < k2 < joined_of(ids, a, b).len() ==> joined_of(ids, a, b)[k1].0 != joined_of(
                ids,
                a,
                b,
            )[k2].0,
    decreases ids.len(),
{
    if ids.len() > 0 {
        assert forall|k1: int, k2: int|
            0 <= k1 < k2 < ids.drop_last().len() implies ids.drop_last()[k1] != ids.drop_last()[k2] by {
            assert(ids[k1] == ids.drop_last()[k1] && ids[k2] == ids.drop_last()[k2]);
        }
        lemma_joined_of_duplicate_free(ids.drop_last(), a, b);
        lemma_joined_of_sound(ids.drop_last(), a, b);
        let prefix = joined_of(ids.drop_last(), a, b);
        let cur = joined_of(ids, a, b);
        assert forall|k1: int, k2: int| 0 <= k1 < k2 < cur.len() implies cur[k1].0 != cur[k2].0 by {
            if k2 < prefix.len() {
                assert(cur[k1] == prefix[k1] && cur[k2] == prefix[k2]);
            } else {
                assert(cur[k2].0 == ids.last());
                assert(cur[k1] == prefix[k1]);
                assert(ids.drop_last().contains(prefix[k1].0));
                let w = choose|w: int|
                    0 <= w < ids.drop_last().len() && ids.drop_last()[w] == prefix[k1].0;
                assert(ids[w] == prefix[k1].0);
                assert(ids[ids.len() - 1] == ids.last());
            }
        }
    }
}

/// Iterate the intersection of the entities present in both tables, yielding
/// `(identifier, first value, second value)` for exactly the entities that
/// hold both components — no tuple lacks either component, every entity
/// holding both appears once, whatever else it carries or lacks.
pub fn join<T: Copy, U: Copy, S1: ComponentStorage<T>, S2: ComponentStorage<U>>(
    a: &S1,
    b: &S2,
) -> (r: Vec<(EntityId, T, U)>)
    requires
        a.inv(),
        b.inv(),
    ensures
        r@ == joined_of(a.spec_ids(), a.contents(), b.contents()),
        forall|k: int|
            0 <= k < r@.len() ==> {
                let e = #[trigger] r@[k];
                &&& a.contents().contains_key(e.0)
                &&& b.contents().contains_key(e.0)
                &&& e.1 == a.contents()[e.0]
                &&& e.2 == b.contents()[e.0]
            },
        forall|id: EntityId|
            a.contents().contains_key(id) && b.contents().contains_key(id) ==> r@.contains(
                (id, a.contents()[id], b.contents()[id]),
            ),
        forall|k1: int, k2: int| 0 <= k1 < k2 < r@.len() ==> r@[k1].0 != r@[k2].0,
{
    let ids = a.ids();
    let mut r: Vec<(EntityId, T, U)> = Vec::new();
    let n: usize = ids.len();
    let mut i: usize = 0;
    while i < n
        invariant
            a.inv(),
            b.inv(),
            n == ids@.len(),
            ids@ == a.spec_ids(),
            forall|k: int| 0 <= k < n ==> a.contents().contains_key(#[trigger] ids@[k]),
            i <= n,
            r@ == joined_of(ids@.take(i as int), a.contents(), b.contents()),
        decreases n - i,
    {
        let id = ids[i];
        let got_b = b.get(id);
        match got_b {
            Some(u) => {
                let got_a = a.get(id);
                match got_a {
                    Some(t) => {
                        r.push((id, t, u));
                    },
                    None => {
                        proof {
                            assert(false);
                        }
                    },
                }
            },
            None => (),
        }
        proof {
            assert(ids@.take(i + 1).drop_last() =~= ids@.take(i as int));
            assert(ids@.take(i + 1).last() == ids@[i as int]);
        }
        i = i + 1;
    }
    proof {
        assert(ids@.take(n as int) =~= ids@);
        lemma_joined_of_sound(a.spec_ids(), a.contents(), b.contents());
        lemma_joined_of_duplicate_free(a.spec_ids(), a.contents(), b.contents());
        assert forall|id: EntityId|
            a.contents().contains_key(id) && b.contents().contains_key(id) implies r@.contains(
            (id, a.contents()[id], b.contents()[id]),
        ) by {
            lemma_joined_of_complete(a.spec_ids(), a.contents(), b.contents(), id);
        }
    }
    r
}

} // verus!
