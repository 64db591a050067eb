//! Interest fit: the overlap of two founders' interest sets.
use vstd::prelude::*;
use vstd::string::*;

use crate::scoring::profile::ScoredProfile;
use crate::scoring::roles::{first_listed, opt_text};
use crate::text::{contains_text, decimal, decimal_text, distinct, strings_view};
use crate::vocab::{choices_view, interests, interests_table, Choice};

verus! {

/// Points available for interest fit, in proportion to the overlap.
pub const MAX_POINTS: u32 = 15;

/// A founder's interests as a set.
pub open spec fn interest_set(p: ScoredProfile) -> Set<Seq<char>> {
    strings_view(p.interests@).to_set()
}

/// The label of the first choice, in the vocabulary's own order, whose id is in `s`.
pub open spec fn first_in(cs: Seq<(Seq<char>, Seq<char>)>, s: Set<Seq<char>>) -> Option<Seq<char>>
    decreases cs.len(),
{
    if cs.len() == 0 {
        None
    } else if s.contains(cs[0].0) {
        Some(cs[0].1)
    } else {
        first_in(cs.drop_first(), s)
    }
}

proof fn lemma_first_listed_is_first_in(cs: Seq<(Seq<char>, Seq<char>)>, ids: Seq<Seq<char>>)
    ensures
        first_listed(cs, ids) == first_in(cs, ids.to_set()),
    decreases cs.len(),
{
    if cs.len() > 0 {
        lemma_first_listed_is_first_in(cs.drop_first(), ids);
    }
}

/// The sentence for interest fit, named in vocabulary order rather than set
/// order, which is arbitrary, so the same pair always produces the same sentence.
pub open spec fn interests_reason(v: ScoredProfile, c: ScoredProfile) -> Option<Seq<char>> {
    let shared = interest_set(v).intersect(interest_set(c));
    match first_in(interests_table(), shared) {
        Some(l) => if shared.len() > 1 {
            Some("Share "@ + decimal(shared.len()) + " interests including "@ + l)
        } else {
            Some("Both into "@ + l)
        },
        None => None,
    }
}

/// Interest fit: how many interests the two share and how many they hold
/// between them. The fraction is `shared / union`; two empty sets are not a
/// perfect overlap, they are no information, and score nothing.
#[derive(Debug)]
pub struct InterestsFit {
    pub shared: usize,
    pub union: usize,
    pub reason: Option<String>,
}

pub fn score_interests(viewer: &ScoredProfile, candidate: &ScoredProfile) -> (f: InterestsFit)
    requires
        viewer.interests@.len() + candidate.interests@.len() <= usize::MAX,
    ensures
        f.shared == interest_set(*viewer).intersect(interest_set(*candidate)).len(),
        f.union == interest_set(*viewer).union(interest_set(*candidate)).len(),
        opt_text(f.reason) == interests_reason(*viewer, *candidate),
{
    let mine = distinct(viewer.interests.as_slice());
    let theirs = distinct(candidate.interests.as_slice());
    let ghost mv = strings_view(mine@);
    let ghost tv = strings_view(theirs@);
    let mut shared: Vec<String> = Vec::new();
    let mut i: usize = 0;
    while i < mine.len()
        invariant
            i <= mine@.len(),
            mv == strings_view(mine@),
            tv == strings_view(theirs@),
            mv.no_duplicates(),
            strings_view(shared@).no_duplicates(),
            strings_view(shared@).to_set() == mv.take(i as int).to_set().intersect(tv.to_set()),
            shared@.len() <= i,
        decreases mine.len() - i,
    {
        let ghost before = strings_view(shared@);
        proof {
            mv.take(i as int).lemma_push_to_set_commute(mv[i as int]);
        }
        assert(mv.take(i + 1) =~= mv.take(i as int).push(mv[i as int]));
        if contains_text(theirs.as_slice(), mine[i].as_str()) {
            shared.push(mine[i].clone());
            assert(strings_view(shared@) =~= before.push(mv[i as int]));
            proof {
                before.lemma_push_to_set_commute(mv[i as int]);
                assert(!before.to_set().contains(mv[i as int]));
            }
        }
        assert(strings_view(shared@).to_set() =~= mv.take(i + 1).to_set().intersect(tv.to_set()));
        i = i + 1;
    }
    assert(mv.take(mine@.len() as int) =~= mv);
    let ghost sv = strings_view(shared@);
    proof {
        broadcast use vstd::seq_lib::seq_to_set_is_finite;
        mv.unique_seq_to_set();
        tv.unique_seq_to_set();
        sv.unique_seq_to_set();
        vstd::set_lib::lemma_set_intersect_union_lens(mv.to_set(), tv.to_set());
        vstd::set_lib::lemma_len_intersect(tv.to_set(), mv.to_set());
        assert(tv.to_set().intersect(mv.to_set()) =~= mv.to_set().intersect(tv.to_set()));
    }
    let union = mine.len() + (theirs.len() - shared.len());
    let vocabulary = interests();
    let mut first: Option<&'static str> = None;
    let mut k: usize = 0;
    let ghost cs = choices_view(vocabulary@);
    assert(cs.skip(0) =~= cs);
    while k < vocabulary.len() && first.is_none()
        invariant
            k <= vocabulary@.len(),
            cs == choices_view(vocabulary@),
            first is None ==> first_listed(cs, sv) == first_listed(cs.skip(k as int), sv),
            first matches Some(l) ==> first_listed(cs, sv) == Some(l@),
            sv == strings_view(shared@),
        decreases vocabulary.len() - k,
    {
        assert(cs.skip(k as int).drop_first() =~= cs.skip(k + 1));
        if contains_text(shared.as_slice(), vocabulary[k].id) {
            first = Some(vocabulary[k].label);
        }
        k = k + 1;
    }
    assert(first is None ==> cs.skip(k as int).len() == 0);
    proof {
        lemma_first_listed_is_first_in(cs, sv);
    }
    let reason = match first {
        Some(l) => if shared.len() > 1 {
            let mut s = String::from_str("Share ");
            let n = decimal_text(shared.len() as u64);
            s.append(n.as_str());
            s.append(" interests including ");
            s.append(l);
            Some(s)
        } else {
            let mut s = String::from_str("Both into ");
            s.append(l);
            Some(s)
        },
        None => None,
    };
    InterestsFit { shared: shared.len(), union, reason }
}

proof fn lemma_first_in_empty(cs: Seq<(Seq<char>, Seq<char>)>)
    ensures
        first_in(cs, Set::empty()) is None,
    decreases cs.len(),
{
    if cs.len() > 0 {
        lemma_first_in_empty(cs.drop_first());
    }
}

/// The overlap is the same whichever of the two is the viewer; and two
/// founders with no interests between them share none and get no sentence.
pub proof fn lemma_interests_symmetric(v: ScoredProfile, c: ScoredProfile)
    ensures
        interest_set(v).intersect(interest_set(c)) == interest_set(c).intersect(interest_set(v)),
        interest_set(v).union(interest_set(c)) == interest_set(c).union(interest_set(v)),
        interest_set(v).union(interest_set(c)).len() == 0 ==> interest_set(v).intersect(
            interest_set(c),
        ).len() == 0 && interests_reason(v, c) is None,
{
    broadcast use vstd::seq_lib::seq_to_set_is_finite;

    assert(interest_set(v).intersect(interest_set(c)) =~= interest_set(c).intersect(interest_set(v)));
    assert(interest_set(v).union(interest_set(c)) =~= interest_set(c).union(interest_set(v)));
    if interest_set(v).union(interest_set(c)).len() == 0 {
        let u = interest_set(v).union(interest_set(c));
        vstd::set_lib::lemma_set_empty_equivalency_len(u);
        assert(interest_set(v).intersect(interest_set(c)) =~= Set::empty());
        lemma_first_in_empty(interests_table());
    }
}

} // verus!
