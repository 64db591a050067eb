//! Which components a card explains itself with: the strongest contributions
//! first, at most three.
use vstd::prelude::*;

use crate::scoring::profile::{Component, Reason};

verus! {

pub const MAX_TOTAL: u16 = 100;
pub const MAX_REASONS: usize = 3;

/// A scored component as the ranking sees it. `weight` orders contributions:
/// zero for a component that contributes nothing, otherwise larger exactly
/// when the contribution is larger (the bit pattern of a positive `f64`
/// orders as the value does).
#[derive(Debug)]
pub struct RankedComponent {
    pub component: Component,
    pub weight: u64,
    pub reason: Option<String>,
}

/// A component can explain a card when it contributed and has a sentence.
pub open spec fn eligible(c: RankedComponent) -> bool {
    c.weight > 0 && c.reason is Some
}

/// `sorted` with `x` placed after every element that weighs at least as much.
pub open spec fn insert_by_weight(sorted: Seq<RankedComponent>, x: RankedComponent) -> Seq<
    RankedComponent,
>
    decreases sorted.len(),
{
    if sorted.len() == 0 {
        seq![x]
    } else if x.weight > sorted[0].weight {
        seq![x] + sorted
    } else {
        seq![sorted[0]] + insert_by_weight(sorted.drop_first(), x)
    }
}

/// The eligible components, heaviest first; equal weights keep their order.
pub open spec fn rank_by_weight(s: Seq<RankedComponent>) -> Seq<RankedComponent>
    decreases s.len(),
{
    if s.len() == 0 {
        seq![]
    } else if eligible(s.last()) {
        insert_by_weight(rank_by_weight(s.drop_last()), s.last())
    } else {
        rank_by_weight(s.drop_last())
    }
}

pub open spec fn reason_view(c: RankedComponent) -> (Component, Seq<char>) {
    (c.component, c.reason->0@)
}

pub open spec fn reasons_view(rs: Seq<Reason>) -> Seq<(Component, Seq<char>)> {
    rs.map_values(|r: Reason| r@)
}

/// The first position in `sorted` that `x` outweighs.
pub open spec fn weight_slot(sorted: Seq<RankedComponent>, x: RankedComponent, p: int) -> bool {
    &&& 0 <= p <= sorted.len()
    &&& forall|k: int| 0 <= k < p ==> !(x.weight > (#[trigger] sorted[k]).weight)
    &&& p < sorted.len() ==> x.weight > sorted[p].weight
}

proof fn lemma_insert_by_weight_at(sorted: Seq<RankedComponent>, x: RankedComponent, p: int)
    requires
        weight_slot(sorted, x, p),
    ensures
        insert_by_weight(sorted, x) == sorted.insert(p, x),
    decreases sorted.len(),
{
    if sorted.len() == 0 {
        assert(sorted.insert(p, x) =~= seq![x]);
    } else if p == 0 {
        assert(sorted.insert(p, x) =~= seq![x] + sorted);
    } else {
        let rest = sorted.drop_first();
        assert forall|k: int| 0 <= k < p - 1 implies !(x.weight > (#[trigger] rest[k]).weight) by {
            assert(rest[k] == sorted[k + 1]);
        }
        lemma_insert_by_weight_at(rest, x, p - 1);
        assert(sorted.insert(p, x) =~= seq![sorted[0]] + rest.insert(p - 1, x));
    }
}

proof fn lemma_insert_keeps_eligible(sorted: Seq<RankedComponent>, x: RankedComponent)
    requires
        eligible(x),
        forall|k: int| 0 <= k < sorted.len() ==> eligible(#[trigger] sorted[k]),
    ensures
        forall|k: int|
            0 <= k < insert_by_weight(sorted, x).len() ==> eligible(
                #[trigger] insert_by_weight(sorted, x)[k],
            ),
    decreases sorted.len(),
{
    if sorted.len() > 0 && !(x.weight > sorted[0].weight) {
        let rest = sorted.drop_first();
        lemma_insert_keeps_eligible(rest, x);
        let r = insert_by_weight(sorted, x);
        assert forall|k: int| 0 <= k < r.len() implies eligible(#[trigger] r[k]) by {
            if k > 0 {
                assert(r[k] == insert_by_weight(rest, x)[k - 1]);
            }
        }
    }
}

/// Every ranked component is eligible.
pub proof fn lemma_ranked_eligible(s: Seq<RankedComponent>)
    ensures
        forall|k: int| 0 <= k < rank_by_weight(s).len() ==> eligible(#[trigger] rank_by_weight(s)[k]),
    decreases s.len(),
{
    if s.len() > 0 {
        lemma_ranked_eligible(s.drop_last());
        if eligible(s.last()) {
            lemma_insert_keeps_eligible(rank_by_weight(s.drop_last()), s.last());
        }
    }
}

/// The eligible components, in their given order.
pub open spec fn eligible_of(s: Seq<RankedComponent>) -> Seq<RankedComponent>
    decreases s.len(),
{
    if s.len() == 0 {
        seq![]
    } else if eligible(s.last()) {
        eligible_of(s.drop_last()).push(s.last())
    } else {
        eligible_of(s.drop_last())
    }
}

/// Weights never increase along the sequence.
pub open spec fn by_descending_weight(s: Seq<RankedComponent>) -> bool {
    forall|i: int, j: int| 0 <= i < j < s.len() ==> (#[trigger] s[j]).weight <= (#[trigger] s[i]).weight
}

proof fn lemma_insert_by_weight_ordered(sorted: Seq<RankedComponent>, x: RankedComponent)
    requires
        by_descending_weight(sorted),
    ensures
        by_descending_weight(insert_by_weight(sorted, x)),
        insert_by_weight(sorted, x).to_multiset() =~= sorted.to_multiset().insert(x),
    decreases sorted.len(),
{
    broadcast use vstd::seq_lib::group_to_multiset_ensures;
    broadcast use vstd::multiset::group_multiset_axioms;

    if sorted.len() == 0 {
        assert(seq![x] =~= Seq::<RankedComponent>::empty().push(x));
    } else if x.weight > sorted[0].weight {
        let r = seq![x] + sorted;
        assert forall|i: int, j: int| 0 <= i < j < r.len() implies (#[trigger] r[j]).weight <= (
        #[trigger] r[i]).weight by {
            if i == 0 {
                assert(r[j] == sorted[j - 1]);
                if j - 1 > 0 {
                    assert(sorted[j - 1].weight <= sorted[0].weight);
                }
            } else {
                assert(r[i] == sorted[i - 1] && r[j] == sorted[j - 1]);
            }
        }
        vstd::seq_lib::lemma_multiset_commutative(seq![x], sorted);
        assert(seq![x] =~= Seq::<RankedComponent>::empty().push(x));
    } else {
        let rest = sorted.drop_first();
        assert forall|i: int, j: int| 0 <= i < j < rest.len() implies (#[trigger] rest[j]).weight
            <= (#[trigger] rest[i]).weight by {
            assert(rest[i] == sorted[i + 1] && rest[j] == sorted[j + 1]);
        }
        lemma_insert_by_weight_ordered(rest, x);
        let tail = insert_by_weight(rest, x);
        let r = seq![sorted[0]] + tail;
        assert forall|i: int, j: int| 0 <= i < j < r.len() implies (#[trigger] r[j]).weight <= (
        #[trigger] r[i]).weight by {
            if i == 0 {
                let e = tail[j - 1];
                assert(tail.to_multiset().count(e) > 0);
                if e != x {
                    assert(rest.to_multiset().count(e) > 0);
                    assert(rest.contains(e));
                    let k = choose|k: int| 0 <= k < rest.len() && rest[k] == e;
                    assert(sorted[k + 1] == e);
                }
            } else {
                assert(r[i] == tail[i - 1] && r[j] == tail[j - 1]);
            }
        }
        vstd::seq_lib::lemma_multiset_commutative(seq![sorted[0]], tail);
        vstd::seq_lib::lemma_multiset_commutative(seq![sorted[0]], rest);
        assert(sorted =~= seq![sorted[0]] + rest);
        assert(seq![sorted[0]] =~= Seq::<RankedComponent>::empty().push(sorted[0]));
    }
}

/// The ranking holds exactly the eligible components, heaviest first.
pub proof fn lemma_ranking_orders_eligible(s: Seq<RankedComponent>)
    ensures
        by_descending_weight(rank_by_weight(s)),
        rank_by_weight(s).to_multiset() =~= eligible_of(s).to_multiset(),
    decreases s.len(),
{
    broadcast use vstd::seq_lib::group_to_multiset_ensures;

    if s.len() > 0 {
        lemma_ranking_orders_eligible(s.drop_last());
        if eligible(s.last()) {
            lemma_insert_by_weight_ordered(rank_by_weight(s.drop_last()), s.last());
        }
    }
}

fn place_by_weight(ranked: &mut Vec<RankedComponent>, c: RankedComponent)
    ensures
        final(ranked)@ == insert_by_weight(old(ranked)@, c),
{
    let mut p: usize = 0;
    while p < ranked.len() && !(c.weight > ranked[p].weight)
        invariant
            p <= ranked@.len(),
            forall|k: int| 0 <= k < p ==> !(c.weight > (#[trigger] ranked@[k]).weight),
        decreases ranked.len() - p,
    {
        p = p + 1;
    }
    proof {
        lemma_insert_by_weight_at(ranked@, c, p as int);
    }
    ranked.insert(p, c);
}

/// The reasons a card shows: the eligible components by descending
/// contribution, equal contributions in their given order, at most three.
pub fn top_reasons(components: Vec<RankedComponent>) -> (r: Vec<Reason>)
    ensures
        reasons_view(r@) == rank_by_weight(components@).take(
            if rank_by_weight(components@).len() < MAX_REASONS {
                rank_by_weight(components@).len() as int
            } else {
                MAX_REASONS as int
            },
        ).map_values(|c: RankedComponent| reason_view(c)),
{
    let ghost all = components@;
    let n = components.len();
    let mut rest = components;
    let mut ranked: Vec<RankedComponent> = Vec::new();
    let mut i: usize = 0;
    while rest.len() > 0
        invariant
            i + rest@.len() == all.len(),
            all.len() <= usize::MAX,
            rest@ == all.skip(i as int),
            ranked@ == rank_by_weight(all.take(i as int)),
        decreases rest.len(),
    {
        let c = rest.remove(0);
        assert(all.take(i + 1).drop_last() =~= all.take(i as int));
        assert(all.skip(i as int)[0] == all[i as int]);
        assert(rest@ =~= all.skip(i + 1));
        if c.weight > 0 && c.reason.is_some() {
            place_by_weight(&mut ranked, c);
        }
        i = i + 1;
    }
    assert(all.take(all.len() as int) =~= all);
    let ghost full = ranked@;
    proof {
        lemma_ranked_eligible(all);
    }
    ranked.truncate(MAX_REASONS);
    let ghost kept = ranked@;
    assert(kept.len() <= MAX_REASONS);
    let mut reasons: Vec<Reason> = Vec::new();
    let mut j: usize = 0;
    while ranked.len() > 0
        invariant
            j + ranked@.len() == kept.len(),
            kept.len() <= MAX_REASONS,
            ranked@ == kept.skip(j as int),
            reasons_view(reasons@) == kept.take(j as int).map_values(|c: RankedComponent| reason_view(c)),
            forall|k: int| 0 <= k < kept.len() ==> eligible(#[trigger] kept[k]),
        decreases ranked.len(),
    {
        let c = ranked.remove(0);
        assert(kept.skip(j as int)[0] == kept[j as int]);
        assert(eligible(kept[j as int]));
        let ghost before = reasons@;
        let ghost cv = reason_view(c);
        assert(ranked@ =~= kept.skip(j + 1));
        let text = match c.reason {
            Some(t) => t,
            None => String::new(),
        };
        assert((c.component, text@) == cv);
        reasons.push(Reason { component: c.component, text });
        assert(reasons@ == before.push(reasons@.last()));
        assert(reasons_view(reasons@) =~= reasons_view(before).push(cv));
        assert(reasons_view(reasons@) =~= kept.take(j + 1).map_values(|c: RankedComponent| reason_view(c)));
        j = j + 1;
    }
    assert(kept.take(kept.len() as int) =~= kept);
    reasons
}

} // verus!
