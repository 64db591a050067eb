//! Role fit: does each founder bring what the other is looking for? The
//! strongest single signal in the model: a technical founder seeking GTM
//! matched with a GTM founder seeking technical.
use vstd::prelude::*;
use vstd::string::*;

use crate::scoring::profile::ScoredProfile;
use crate::text::{contains_text, strings_view};
use crate::vocab::{roles, roles_table, Choice};

verus! {

/// Points available for role fit, half for each direction.
pub const MAX_POINTS: u32 = 30;

/// The wanted roles, in order, that `offered` covers.
pub open spec fn covered(offered: Seq<Seq<char>>, wanted: Seq<Seq<char>>) -> Seq<Seq<char>>
    decreases wanted.len(),
{
    if wanted.len() == 0 {
        seq![]
    } else if offered.contains(wanted.last()) {
        covered(offered, wanted.drop_last()).push(wanted.last())
    } else {
        covered(offered, wanted.drop_last())
    }
}

/// The label of the first choice, in the vocabulary's own order, whose id is among `ids`.
pub open spec fn first_listed(cs: Seq<(Seq<char>, Seq<char>)>, ids: Seq<Seq<char>>) -> Option<
    Seq<char>,
>
    decreases cs.len(),
{
    if cs.len() == 0 {
        None
    } else if ids.contains(cs[0].0) {
        Some(cs[0].1)
    } else {
        first_listed(cs.drop_first(), ids)
    }
}

/// How much of `wanted` is covered by `offered`: the covered fraction is
/// `matched / wanted` (nothing when `matched` is zero), and `first` names the
/// first covered role in the vocabulary's own order, so the explanation is
/// deterministic.
#[derive(Debug, Clone, Copy, PartialEq, Eq)]
pub struct Coverage {
    pub matched: usize,
    pub wanted: usize,
    pub first: Option<&'static str>,
}

pub open spec fn label_view(l: Option<&'static str>) -> Option<Seq<char>> {
    match l {
        Some(s) => Some(s@),
        None => None,
    }
}

/// `c` is how far `offered` covers `wanted`.
pub open spec fn is_coverage(c: Coverage, offered: Seq<Seq<char>>, wanted: Seq<Seq<char>>) -> bool {
    &&& c.matched == covered(offered, wanted).len()
    &&& c.wanted == wanted.len()
    &&& label_view(c.first) == first_listed(roles_table(), covered(offered, wanted))
}

proof fn lemma_covered_len(offered: Seq<Seq<char>>, wanted: Seq<Seq<char>>)
    ensures
        covered(offered, wanted).len() <= wanted.len(),
    decreases wanted.len(),
{
    if wanted.len() > 0 {
        lemma_covered_len(offered, wanted.drop_last());
    }
}

fn first_listed_in(choices: &Vec<Choice>, ids: &Vec<String>) -> (r: Option<&'static str>)
    ensures
        label_view(r) == first_listed(crate::vocab::choices_view(choices@), strings_view(ids@)),
{
    let ghost cs = crate::vocab::choices_view(choices@);
    let ghost iv = strings_view(ids@);
    let mut i: usize = 0;
    assert(cs.skip(0) =~= cs);
    while i < choices.len()
        invariant
            i <= choices@.len(),
            cs == crate::vocab::choices_view(choices@),
            iv == strings_view(ids@),
            first_listed(cs, iv) == first_listed(cs.skip(i as int), iv),
        decreases choices.len() - i,
    {
        assert(cs.skip(i as int).drop_first() =~= cs.skip(i + 1));
        if contains_text(ids.as_slice(), choices[i].id) {
            return Some(choices[i].label);
        }
        i = i + 1;
    }
    None
}

/// What fraction of `wanted` is covered by `offered`, and the first covered
/// role in the vocabulary's own order.
pub fn coverage(offered: &[String], wanted: &[String]) -> (c: Coverage)
    ensures
        is_coverage(c, strings_view(offered@), strings_view(wanted@)),
        c.matched <= c.wanted,
{
    let ghost ov = strings_view(offered@);
    let ghost wv = strings_view(wanted@);
    let mut matched: Vec<String> = Vec::new();
    let mut i: usize = 0;
    while i < wanted.len()
        invariant
            i <= wanted@.len(),
            ov == strings_view(offered@),
            wv == strings_view(wanted@),
            strings_view(matched@) == covered(ov, wv.take(i as int)),
        decreases wanted.len() - i,
    {
        assert(wv.take(i + 1).drop_last() =~= wv.take(i as int));
        if contains_text(offered, wanted[i].as_str()) {
            matched.push(wanted[i].clone());
            assert(strings_view(matched@) =~= covered(ov, wv.take(i as int)).push(wv[i as int]));
        }
        i = i + 1;
    }
    assert(wv.take(wanted@.len() as int) =~= wv);
    proof {
        lemma_covered_len(ov, wv);
    }
    let vocabulary = roles();
    let first = first_listed_in(&vocabulary, &matched);
    Coverage { matched: matched.len(), wanted: wanted.len(), first }
}

/// The sentence explaining role fit, from the role each side brings.
pub open spec fn roles_reason(they: Option<Seq<char>>, you: Option<Seq<char>>) -> Option<Seq<char>> {
    match (they, you) {
        (Some(t), Some(y)) => Some("They bring "@ + t + ", you bring "@ + y),
        (Some(t), None) => Some("Brings "@ + t + ", which you're after"@),
        (None, Some(y)) => Some("Looking for "@ + y + ", which you bring"@),
        (None, None) => None,
    }
}

pub open spec fn opt_text(o: Option<String>) -> Option<Seq<char>> {
    match o {
        Some(s) => Some(s@),
        None => None,
    }
}

/// Role fit between a viewer and a candidate: how far the candidate's roles
/// cover what the viewer seeks (`they`), how far the viewer's cover what the
/// candidate seeks (`you`), and the sentence that explains it. Each direction
/// is worth half of `MAX_POINTS`, in proportion to its covered fraction.
#[derive(Debug)]
pub struct RolesFit {
    pub they: Coverage,
    pub you: Coverage,
    pub reason: Option<String>,
}

pub fn score_roles(viewer: &ScoredProfile, candidate: &ScoredProfile) -> (f: RolesFit)
    ensures
        is_coverage(f.they, strings_view(candidate.roles@), strings_view(viewer.seeking_roles@)),
        is_coverage(f.you, strings_view(viewer.roles@), strings_view(candidate.seeking_roles@)),
        f.they.matched <= f.they.wanted,
        f.you.matched <= f.you.wanted,
        opt_text(f.reason) == roles_reason(label_view(f.they.first), label_view(f.you.first)),
{
    let they = coverage(candidate.roles.as_slice(), viewer.seeking_roles.as_slice());
    let you = coverage(viewer.roles.as_slice(), candidate.seeking_roles.as_slice());
    let reason = match (they.first, you.first) {
        (Some(theirs), Some(yours)) => {
            let mut s = String::from_str("They bring ");
            s.append(theirs);
            s.append(", you bring ");
            s.append(yours);
            Some(s)
        },
        (Some(theirs), None) => {
            let mut s = String::from_str("Brings ");
            s.append(theirs);
            s.append(", which you're after");
            Some(s)
        },
        (None, Some(yours)) => {
            let mut s = String::from_str("Looking for ");
            s.append(yours);
            s.append(", which you bring");
            Some(s)
        },
        (None, None) => None,
    };
    RolesFit { they, you, reason }
}

/// A direction earns its full share exactly when every sought role is
/// offered, and nothing exactly when none is.
pub proof fn lemma_full_and_empty_coverage(offered: Seq<Seq<char>>, wanted: Seq<Seq<char>>)
    ensures
        covered(offered, wanted).len() == wanted.len() <==> (forall|i: int|
            0 <= i < wanted.len() ==> offered.contains(#[trigger] wanted[i])),
        covered(offered, wanted).len() == 0 <==> (forall|i: int|
            0 <= i < wanted.len() ==> !offered.contains(#[trigger] wanted[i])),
    decreases wanted.len(),
{
    if wanted.len() > 0 {
        let rest = wanted.drop_last();
        lemma_full_and_empty_coverage(offered, rest);
        lemma_covered_len(offered, rest);
        assert forall|i: int| 0 <= i < rest.len() implies rest[i] == wanted[i] by {}
        if covered(offered, wanted).len() == wanted.len() {
            assert forall|i: int| 0 <= i < wanted.len() implies offered.contains(
                #[trigger] wanted[i],
            ) by {
                if i < rest.len() {
                    assert(rest[i] == wanted[i]);
                }
            }
        }
        if forall|i: int| 0 <= i < wanted.len() ==> offered.contains(#[trigger] wanted[i]) {
            assert(offered.contains(wanted[wanted.len() - 1]));
            assert forall|i: int| 0 <= i < rest.len() implies offered.contains(#[trigger] rest[i]) by {
                assert(offered.contains(wanted[i]));
            }
        }
        if forall|i: int| 0 <= i < wanted.len() ==> !offered.contains(#[trigger] wanted[i]) {
            assert(!offered.contains(wanted[wanted.len() - 1]));
            assert forall|i: int| 0 <= i < rest.len() implies !offered.contains(#[trigger] rest[i]) by {
                assert(!offered.contains(wanted[i]));
            }
        }
        if covered(offered, wanted).len() == 0 {
            assert forall|i: int| 0 <= i < wanted.len() implies !offered.contains(
                #[trigger] wanted[i],
            ) by {
                if i < rest.len() {
                    assert(rest[i] == wanted[i]);
                }
            }
        }
    }
}

/// Role fit is mirrored: with viewer and candidate exchanged, what the
/// candidate brought the viewer is what the viewer, now the candidate,
/// brings, and the other way round. So the role points of a pair do not
/// depend on which of the two is looking.
pub proof fn lemma_roles_mirrored(v: ScoredProfile, c: ScoredProfile, f: RolesFit, g: RolesFit)
    requires
        is_coverage(f.they, strings_view(c.roles@), strings_view(v.seeking_roles@)),
        is_coverage(f.you, strings_view(v.roles@), strings_view(c.seeking_roles@)),
        is_coverage(g.they, strings_view(v.roles@), strings_view(c.seeking_roles@)),
        is_coverage(g.you, strings_view(c.roles@), strings_view(v.seeking_roles@)),
    ensures
        f.they.matched == g.you.matched && f.they.wanted == g.you.wanted,
        f.you.matched == g.they.matched && f.you.wanted == g.they.wanted,
        label_view(f.they.first) == label_view(g.you.first),
        label_view(f.you.first) == label_view(g.they.first),
{
}

} // verus!
