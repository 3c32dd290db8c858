//! Choosing the Instance that serves a resource claim.

use vstd::prelude::*;
use crate::instance::{Instance, InstanceView};

verus! {

/// The active claims of the Instance do not exceed its capacity.
pub open spec fn within_capacity(i: InstanceView) -> bool {
    i.spec.active_claims.len() <= i.spec.capacity
}

pub open spec fn free_at(instances: Seq<Instance>, candidates: Seq<usize>, k: int) -> int {
    instances[candidates[k] as int]@.spec.free_slots()
}

/// Position `p` of `candidates` names the best Instance: it has a free slot,
/// no candidate has more, and every earlier candidate has fewer.
pub open spec fn is_best_candidate(instances: Seq<Instance>, candidates: Seq<usize>, p: int) -> bool {
    &&& 0 <= p < candidates.len()
    &&& free_at(instances, candidates, p) > 0
    &&& forall|k: int|
        0 <= k < candidates.len() ==> #[trigger] free_at(instances, candidates, k) <= free_at(
            instances,
            candidates,
            p,
        )
    &&& forall|k: int|
        0 <= k < p ==> #[trigger] free_at(instances, candidates, k) < free_at(
            instances,
            candidates,
            p,
        )
}

/// Among the candidate Instances (positions in `instances`), the first one
/// with the most free slots; `None` when none has a free slot.
pub fn best_instance(instances: &Vec<Instance>, candidates: &Vec<usize>) -> (r: Option<usize>)
    requires
        forall|k: int|
            0 <= k < candidates@.len() ==> #[trigger] candidates@[k] < instances@.len()
                && within_capacity(instances@[candidates@[k] as int]@),
    ensures
        match r {
            Some(p) => is_best_candidate(instances@, candidates@, p as int),
            None => forall|k: int|
                0 <= k < candidates@.len() ==> #[trigger] free_at(instances@, candidates@, k) == 0,
        },
{
    let mut best: Option<usize> = None;
    let mut best_free: usize = 0;
    let mut k: usize = 0;
    while k < candidates.len()
        invariant
            k <= candidates@.len(),
            forall|j: int|
                0 <= j < candidates@.len() ==> #[trigger] candidates@[j] < instances@.len()
                    && within_capacity(instances@[candidates@[j] as int]@),
            match best {
                Some(b) => {
                    &&& b < k
                    &&& best_free == free_at(instances@, candidates@, b as int)
                    &&& best_free > 0
                    &&& forall|j: int|
                        0 <= j < k ==> #[trigger] free_at(instances@, candidates@, j) <= best_free
                    &&& forall|j: int|
                        0 <= j < b ==> #[trigger] free_at(instances@, candidates@, j) < best_free
                },
                None => forall|j: int|
                    0 <= j < k ==> #[trigger] free_at(instances@, candidates@, j) == 0,
            },
        decreases candidates@.len() - k,
    {
        let f = instances[candidates[k]].spec.free_slots();
        assert(f == free_at(instances@, candidates@, k as int));
        match best {
            Some(_) => {
                if f > best_free {
                    best = Some(k);
                    best_free = f;
                }
            },
            None => {
                if f > 0 {
                    best = Some(k);
                    best_free = f;
                }
            },
        }
        k = k + 1;
    }
    best
}

pub open spec fn views(v: Seq<Instance>) -> Seq<InstanceView> {
    v.map_values(|i: Instance| i@)
}

/// Position `k` holds the Instance chosen among those satisfying `pred`:
/// the first one with the most free slots, which has some free slot.
pub open spec fn is_best_by(
    instances: Seq<InstanceView>,
    pred: spec_fn(InstanceView) -> bool,
    k: int,
) -> bool {
    &&& 0 <= k < instances.len()
    &&& pred(instances[k])
    &&& instances[k].spec.free_slots() > 0
    &&& forall|j: int|
        0 <= j < instances.len() && #[trigger] pred(instances[j])
            ==> instances[j].spec.free_slots() <= instances[k].spec.free_slots()
    &&& forall|j: int|
        0 <= j < k && #[trigger] pred(instances[j]) ==> instances[j].spec.free_slots()
            < instances[k].spec.free_slots()
}

/// `cand` lists, in increasing order, exactly the positions of `instances`
/// whose Instance satisfies `pred`.
pub open spec fn lists_exactly(
    instances: Seq<Instance>,
    cand: Seq<usize>,
    pred: spec_fn(InstanceView) -> bool,
) -> bool {
    &&& forall|k: int|
        0 <= k < cand.len() ==> #[trigger] cand[k] < instances.len() && pred(
            instances[cand[k] as int]@,
        )
    &&& forall|k1: int, k2: int| 0 <= k1 < k2 < cand.len() ==> #[trigger] cand[k1] < #[trigger] cand[k2]
    &&& forall|i: int| 0 <= i < instances.len() && pred(#[trigger] instances[i]@) ==> cand.contains(i as usize)
}

/// The best of a complete, ordered candidate list is the best Instance
/// satisfying the predicate.
pub proof fn lemma_best_of_listed(
    instances: Seq<Instance>,
    cand: Seq<usize>,
    pred: spec_fn(InstanceView) -> bool,
    p: int,
)
    requires
        lists_exactly(instances, cand, pred),
        is_best_candidate(instances, cand, p),
        instances.len() <= usize::MAX,
    ensures
        is_best_by(views(instances), pred, cand[p] as int),
{
    let v = views(instances);
    let k = cand[p] as int;
    assert(v[k] == instances[k]@);
    assert forall|j: int| 0 <= j < v.len() && #[trigger] pred(v[j]) implies v[j].spec.free_slots()
        <= v[k].spec.free_slots() by {
        assert(v[j] == instances[j]@);
        assert(pred(instances[j]@));
        assert(cand.contains(j as usize));
        let q = choose|q: int| 0 <= q < cand.len() && cand[q] == j as usize;
        assert(cand[q] as int == j);
        assert(free_at(instances, cand, q) <= free_at(instances, cand, p));
    }
    assert forall|j: int| 0 <= j < k && #[trigger] pred(v[j]) implies v[j].spec.free_slots()
        < v[k].spec.free_slots() by {
        assert(v[j] == instances[j]@);
        assert(pred(instances[j]@));
        assert(cand.contains(j as usize));
        let q = choose|q: int| 0 <= q < cand.len() && cand[q] == j as usize;
        assert(cand[q] as int == j);
        if q > p {
            assert(cand[p] < cand[q]);
        }
        assert(free_at(instances, cand, q) < free_at(instances, cand, p));
    }
}

/// When no listed candidate has a free slot, no Instance satisfying the
/// predicate has one.
pub proof fn lemma_none_free_of_listed(
    instances: Seq<Instance>,
    cand: Seq<usize>,
    pred: spec_fn(InstanceView) -> bool,
)
    requires
        lists_exactly(instances, cand, pred),
        forall|k: int| 0 <= k < cand.len() ==> #[trigger] free_at(instances, cand, k) == 0,
        instances.len() <= usize::MAX,
    ensures
        forall|j: int|
            0 <= j < views(instances).len() && #[trigger] pred(views(instances)[j])
                ==> views(instances)[j].spec.free_slots() == 0,
{
    assert forall|j: int|
        0 <= j < views(instances).len() && #[trigger] pred(views(instances)[j]) implies views(
        instances,
    )[j].spec.free_slots() == 0 by {
        assert(views(instances)[j] == instances[j]@);
        assert(pred(instances[j]@));
        assert(cand.contains(j as usize));
        let q = choose|q: int| 0 <= q < cand.len() && cand[q] == j as usize;
        assert(cand[q] as int == j);
        assert(free_at(instances, cand, q) == 0);
    }
}

} // verus!
