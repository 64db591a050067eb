//! The deck: candidates ranked for one viewer, best first.
use vstd::prelude::*;

use crate::scoring::profile::{Reason, ScoredProfile};
use crate::text::{contains_text, strings_view};

verus! {

pub const DECK_SIZE: usize = 20;
pub const POPULARITY_WINDOW_DAYS: i32 = 30;
pub const RECENT_PASSES: i64 = 20;

/// One candidate as the viewer's deck shows them.
#[derive(Debug, Clone)]
pub struct DeckCard {
    /// The user id's 128 bits, which order users as their ids do.
    pub user_id: u128,
    pub display_name: String,
    pub headline: String,
    pub bio: String,
    pub city: String,
    pub country: String,
    pub roles: Vec<String>,
    pub seeking_roles: Vec<String>,
    pub interests: Vec<String>,
    pub score: u16,
    pub reasons: Vec<Reason>,
}

#[derive(Debug, Clone)]
pub struct DeckView {
    pub cards: Vec<DeckCard>,
    /// False when the viewer's own profile is not complete. They get an
    /// empty deck and a reason rather than an error, because the frontend
    /// wants to show a prompt, not a failure.
    pub profile_complete: bool,
}

/// `a` goes before `b`: a higher score, or an equal score and a smaller id,
/// so that equal scores keep a stable order across requests.
pub open spec fn precedes(a: DeckCard, b: DeckCard) -> bool {
    a.score > b.score || (a.score == b.score && a.user_id < b.user_id)
}

/// `sorted` with `x` placed before the first card it precedes.
pub open spec fn insert_card(sorted: Seq<DeckCard>, x: DeckCard) -> Seq<DeckCard>
    decreases sorted.len(),
{
    if sorted.len() == 0 {
        seq![x]
    } else if precedes(x, sorted[0]) {
        seq![x] + sorted
    } else {
        seq![sorted[0]] + insert_card(sorted.drop_first(), x)
    }
}

/// Every card, in deck order.
pub open spec fn rank_deck(s: Seq<DeckCard>) -> Seq<DeckCard>
    decreases s.len(),
{
    if s.len() == 0 {
        seq![]
    } else {
        insert_card(rank_deck(s.drop_last()), s.last())
    }
}

pub open spec fn card_slot(sorted: Seq<DeckCard>, x: DeckCard, p: int) -> bool {
    &&& 0 <= p <= sorted.len()
    &&& forall|k: int| 0 <= k < p ==> !precedes(x, #[trigger] sorted[k])
    &&& p < sorted.len() ==> precedes(x, sorted[p])
}

proof fn lemma_insert_card_at(sorted: Seq<DeckCard>, x: DeckCard, p: int)
    requires
        card_slot(sorted, x, p),
    ensures
        insert_card(sorted, x) == sorted.insert(p, x),
    decreases sorted.len(),
{
    if sorted.len() == 0 {
        assert(sorted.insert(p, x) =~= seq![x]);
    } else if p == 0 {
        assert(sorted.insert(p, x) =~= seq![x] + sorted);
    } else {
        let rest = sorted.drop_first();
        assert forall|k: int| 0 <= k < p - 1 implies !precedes(x, #[trigger] rest[k]) by {
            assert(rest[k] == sorted[k + 1]);
        }
        lemma_insert_card_at(rest, x, p - 1);
        assert(sorted.insert(p, x) =~= seq![sorted[0]] + rest.insert(p - 1, x));
    }
}

fn goes_before(a: &DeckCard, b: &DeckCard) -> (r: bool)
    ensures
        r == precedes(*a, *b),
{
    a.score > b.score || (a.score == b.score && a.user_id < b.user_id)
}

/// The deck: descending by score, then by id, at most `DECK_SIZE` cards.
pub fn rank_cards(cards: Vec<DeckCard>) -> (r: Vec<DeckCard>)
    ensures
        r@ == rank_deck(cards@).take(
            if cards@.len() < DECK_SIZE {
                cards@.len() as int
            } else {
                DECK_SIZE as int
            },
        ),
{
    let ghost all = cards@;
    let n = cards.len();
    let mut rest = cards;
    let mut ranked: Vec<DeckCard> = Vec::new();
    let mut i: usize = 0;
    while rest.len() > 0
        invariant
            i + rest@.len() == all.len(),
            all.len() == n,
            rest@ == all.skip(i as int),
            ranked@ == rank_deck(all.take(i as int)),
            ranked@.len() == i,
        decreases rest.len(),
    {
        let c = rest.remove(0);
        assert(all.take(i + 1).drop_last() =~= all.take(i as int));
        assert(all.skip(i as int)[0] == all[i as int]);
        assert(rest@ =~= all.skip(i + 1));
        let mut p: usize = 0;
        while p < ranked.len() && !goes_before(&c, &ranked[p])
            invariant
                p <= ranked@.len(),
                forall|k: int| 0 <= k < p ==> !precedes(c, #[trigger] ranked@[k]),
            decreases ranked.len() - p,
        {
            p = p + 1;
        }
        proof {
            lemma_insert_card_at(ranked@, c, p as int);
        }
        ranked.insert(p, c);
        i = i + 1;
    }
    assert(all.take(all.len() as int) =~= all);
    ranked.truncate(DECK_SIZE);
    ranked
}

/// No card is preceded by a card after it.
pub open spec fn deck_ordered(s: Seq<DeckCard>) -> bool {
    forall|i: int, j: int| 0 <= i < j < s.len() ==> !precedes(#[trigger] s[j], #[trigger] s[i])
}

proof fn lemma_insert_card_ordered(sorted: Seq<DeckCard>, x: DeckCard)
    requires
        deck_ordered(sorted),
    ensures
        deck_ordered(insert_card(sorted, x)),
        insert_card(sorted, x).to_multiset() =~= sorted.to_multiset().insert(x),
    decreases sorted.len(),
{
    broadcast use vstd::seq_lib::group_to_multiset_ensures;
    broadcast use vstd::multiset::group_multiset_axioms;

    if sorted.len() == 0 {
        assert(seq![x] =~= Seq::<DeckCard>::empty().push(x));
    } else if precedes(x, sorted[0]) {
        let r = seq![x] + sorted;
        assert forall|i: int, j: int| 0 <= i < j < r.len() implies !precedes(
            #[trigger] r[j],
            #[trigger] r[i],
        ) by {
            if i == 0 {
                assert(r[j] == sorted[j - 1]);
                if j - 1 > 0 {
                    assert(!precedes(sorted[j - 1], sorted[0]));
                }
            } else {
                assert(r[i] == sorted[i - 1] && r[j] == sorted[j - 1]);
            }
        }
        vstd::seq_lib::lemma_multiset_commutative(seq![x], sorted);
        assert(seq![x] =~= Seq::<DeckCard>::empty().push(x));
    } else {
        let rest = sorted.drop_first();
        assert forall|i: int, j: int| 0 <= i < j < rest.len() implies !precedes(
            #[trigger] rest[j],
            #[trigger] rest[i],
        ) by {
            assert(rest[i] == sorted[i + 1] && rest[j] == sorted[j + 1]);
        }
        lemma_insert_card_ordered(rest, x);
        let tail = insert_card(rest, x);
        let r = seq![sorted[0]] + tail;
        assert forall|i: int, j: int| 0 <= i < j < r.len() implies !precedes(
            #[trigger] r[j],
            #[trigger] r[i],
        ) by {
            if i == 0 {
                let e = tail[j - 1];
                assert(tail.to_multiset().count(e) > 0);
                if e != x {
                    assert(rest.to_multiset().count(e) > 0);
                    assert(rest.contains(e));
                    let k = choose|k: int| 0 <= k < rest.len() && rest[k] == e;
                    assert(sorted[k + 1] == e);
                }
            } else {
                assert(r[i] == tail[i - 1] && r[j] == tail[j - 1]);
            }
        }
        vstd::seq_lib::lemma_multiset_commutative(seq![sorted[0]], tail);
        vstd::seq_lib::lemma_multiset_commutative(seq![sorted[0]], rest);
        assert(sorted =~= seq![sorted[0]] + rest);
        assert(seq![sorted[0]] =~= Seq::<DeckCard>::empty().push(sorted[0]));
    }
}

/// The deck order holds every card once and never puts a card after one it
/// precedes: descending by score, equal scores by ascending id.
pub proof fn lemma_rank_deck_orders_every_card(s: Seq<DeckCard>)
    ensures
        deck_ordered(rank_deck(s)),
        rank_deck(s).to_multiset() =~= s.to_multiset(),
    decreases s.len(),
{
    broadcast use vstd::seq_lib::group_to_multiset_ensures;

    if s.len() > 0 {
        lemma_rank_deck_orders_every_card(s.drop_last());
        lemma_insert_card_ordered(rank_deck(s.drop_last()), s.last());
        assert(s =~= s.drop_last().push(s.last()));
    }
}

/// How many of `s` are in `passed`.
pub open spec fn count_in(s: Seq<Seq<char>>, passed: Seq<Seq<char>>) -> nat
    decreases s.len(),
{
    if s.len() == 0 {
        0
    } else {
        count_in(s.drop_last(), passed) + (if passed.contains(s.last()) {
            1nat
        } else {
            0nat
        })
    }
}

/// A candidate can never share more tags with the viewer's passes than
/// they have, so the pass penalty never exceeds its maximum.
pub proof fn lemma_shared_within_own(s: Seq<Seq<char>>, passed: Seq<Seq<char>>)
    ensures
        count_in(s, passed) <= s.len(),
        passed.len() == 0 ==> count_in(s, passed) == 0,
    decreases s.len(),
{
    if s.len() > 0 {
        lemma_shared_within_own(s.drop_last(), passed);
    }
}

/// A candidate's own tags: their roles, then their interests.
pub open spec fn own_tags(c: ScoredProfile) -> Seq<Seq<char>> {
    strings_view(c.roles@) + strings_view(c.interests@)
}

/// How much of a candidate's own tag set the viewer has recently been
/// passing on: `shared` of the `own` tags. The candidate loses ground in
/// proportion to `shared / own`.
#[derive(Debug, Clone, Copy, PartialEq, Eq)]
pub struct PassOverlap {
    pub shared: usize,
    pub own: usize,
}

/// `None` when nothing applies: the viewer has passed on no tags, or the
/// candidate has none.
pub fn pass_overlap(candidate: &ScoredProfile, passed: &[String]) -> (r: Option<PassOverlap>)
    requires
        candidate.roles@.len() + candidate.interests@.len() <= usize::MAX,
    ensures
        match r {
            None => passed@.len() == 0 || own_tags(*candidate).len() == 0,
            Some(o) => passed@.len() != 0 && own_tags(*candidate).len() != 0 && o.own == own_tags(
                *candidate,
            ).len() && o.shared == count_in(own_tags(*candidate), strings_view(passed@)),
        },
{
    if passed.len() == 0 {
        return None;
    }
    let own_len = candidate.roles.len() + candidate.interests.len();
    if own_len == 0 {
        return None;
    }
    let ghost own = own_tags(*candidate);
    let ghost pv = strings_view(passed@);
    let mut shared: usize = 0;
    let mut i: usize = 0;
    while i < own_len
        invariant
            i <= own_len,
            own_len == own.len(),
            own == own_tags(*candidate),
            pv == strings_view(passed@),
            shared == count_in(own.take(i as int), pv),
            shared <= i,
        decreases own_len - i,
    {
        assert(own.take(i + 1).drop_last() =~= own.take(i as int));
        let tag = if i < candidate.roles.len() {
            candidate.roles[i].as_str()
        } else {
            candidate.interests[i - candidate.roles.len()].as_str()
        };
        assert(tag@ == own[i as int]);
        if contains_text(passed, tag) {
            shared = shared + 1;
        }
        i = i + 1;
    }
    assert(own.take(own_len as int) =~= own);
    Some(PassOverlap { shared, own: own_len })
}

} // verus!
