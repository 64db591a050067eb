//! The fixed vocabularies a profile is built from. Served to the frontend so
//! the form's labels and the stored values can never drift apart.
use vstd::prelude::*;

verus! {

/// One selectable value.
#[derive(Debug, Clone, Copy, PartialEq, Eq)]
pub struct Choice {
    pub id: &'static str,
    pub label: &'static str,
}

impl View for Choice {
    type V = (Seq<char>, Seq<char>);

    open spec fn view(&self) -> (Seq<char>, Seq<char>) {
        (self.id@, self.label@)
    }
}

/// The id/label pairs of a list of choices.
pub open spec fn choices_view(cs: Seq<Choice>) -> Seq<(Seq<char>, Seq<char>)> {
    cs.map_values(|c: Choice| c@)
}

/// Whether some choice has the id `id`.
pub open spec fn has_id(cs: Seq<(Seq<char>, Seq<char>)>, id: Seq<char>) -> bool {
    exists|i: int| 0 <= i < cs.len() && (#[trigger] cs[i]).0 == id
}

/// The label of the first choice whose id is `id`.
pub open spec fn label_of(cs: Seq<(Seq<char>, Seq<char>)>, id: Seq<char>) -> Option<Seq<char>>
    decreases cs.len(),
{
    if cs.len() == 0 {
        None
    } else if cs[0].0 == id {
        Some(cs[0].1)
    } else {
        label_of(cs.drop_first(), id)
    }
}

/// The position of the first choice whose id is `id`.
pub open spec fn position_of(cs: Seq<(Seq<char>, Seq<char>)>, id: Seq<char>) -> Option<int>
    decreases cs.len(),
{
    if cs.len() == 0 {
        None
    } else if cs[0].0 == id {
        Some(0)
    } else {
        match position_of(cs.drop_first(), id) {
            Some(p) => Some(p + 1),
            None => None,
        }
    }
}

/// The roles a founder can bring or seek.
pub open spec fn roles_table() -> Seq<(Seq<char>, Seq<char>)> {
    seq![
        ("engineering"@, "Engineering"@),
        ("design"@, "Design"@),
        ("product"@, "Product"@),
        ("gtm"@, "GTM / Sales"@),
        ("ops_finance"@, "Ops / Finance"@),
        ("research"@, "Research / Science"@),
    ]
}

/// The roles a founder can bring or seek.
pub fn roles() -> (r: Vec<Choice>)
    ensures
        choices_view(r@) == roles_table(),
{
    let mut r: Vec<Choice> = Vec::new();
    r.push(Choice { id: "engineering", label: "Engineering" });
    r.push(Choice { id: "design", label: "Design" });
    r.push(Choice { id: "product", label: "Product" });
    r.push(Choice { id: "gtm", label: "GTM / Sales" });
    r.push(Choice { id: "ops_finance", label: "Ops / Finance" });
    r.push(Choice { id: "research", label: "Research / Science" });
    assert(choices_view(r@) =~= roles_table());
    r
}

/// Where a founder stands with an idea.
pub open spec fn idea_statuses_table() -> Seq<(Seq<char>, Seq<char>)> {
    seq![
        ("committed_idea"@, "I have an idea I'm committed to"@),
        ("flexible_idea"@, "I have an idea but I'm flexible"@),
        ("looking_to_join"@, "I'm looking to join someone else's"@),
    ]
}

/// Where a founder stands with an idea.
pub fn idea_statuses() -> (r: Vec<Choice>)
    ensures
        choices_view(r@) == idea_statuses_table(),
{
    let mut r: Vec<Choice> = Vec::new();
    r.push(Choice { id: "committed_idea", label: "I have an idea I'm committed to" });
    r.push(Choice { id: "flexible_idea", label: "I have an idea but I'm flexible" });
    r.push(Choice { id: "looking_to_join", label: "I'm looking to join someone else's" });
    assert(choices_view(r@) =~= idea_statuses_table());
    r
}

/// How far the venture has got; a ladder, so positions are distances.
pub open spec fn stages_table() -> Seq<(Seq<char>, Seq<char>)> {
    seq![
        ("idea"@, "Idea"@),
        ("prototype"@, "Prototype"@),
        ("users"@, "Users"@),
        ("revenue"@, "Revenue"@),
    ]
}

/// How far the venture has got; a ladder, so positions are distances.
pub fn stages() -> (r: Vec<Choice>)
    ensures
        choices_view(r@) == stages_table(),
{
    let mut r: Vec<Choice> = Vec::new();
    r.push(Choice { id: "idea", label: "Idea" });
    r.push(Choice { id: "prototype", label: "Prototype" });
    r.push(Choice { id: "users", label: "Users" });
    r.push(Choice { id: "revenue", label: "Revenue" });
    assert(choices_view(r@) =~= stages_table());
    r
}

/// How much time a founder can give; a ladder, so positions are distances.
pub open spec fn commitments_table() -> Seq<(Seq<char>, Seq<char>)> {
    seq![
        ("full_time_now"@, "Full-time now"@),
        ("full_time_when_funded"@, "Full-time once funded"@),
        ("part_time"@, "Part-time"@),
        ("exploring"@, "Exploring"@),
    ]
}

/// How much time a founder can give; a ladder, so positions are distances.
pub fn commitments() -> (r: Vec<Choice>)
    ensures
        choices_view(r@) == commitments_table(),
{
    let mut r: Vec<Choice> = Vec::new();
    r.push(Choice { id: "full_time_now", label: "Full-time now" });
    r.push(Choice { id: "full_time_when_funded", label: "Full-time once funded" });
    r.push(Choice { id: "part_time", label: "Part-time" });
    r.push(Choice { id: "exploring", label: "Exploring" });
    assert(choices_view(r@) =~= commitments_table());
    r
}

/// The sectors a founder can list as interests.
pub open spec fn interests_table() -> Seq<(Seq<char>, Seq<char>)> {
    seq![
        ("ai_ml"@, "AI / ML"@),
        ("agritech"@, "Agriculture"@),
        ("biotech"@, "Biotech"@),
        ("climate"@, "Climate"@),
        ("consumer_social"@, "Consumer / Social"@),
        ("developer_tools"@, "Developer tools"@),
        ("ecommerce"@, "E-commerce"@),
        ("edtech"@, "Education"@),
        ("fintech"@, "Fintech"@),
        ("gaming"@, "Gaming"@),
        ("healthtech"@, "Health"@),
        ("logistics"@, "Logistics"@),
        ("marketplace"@, "Marketplaces"@),
        ("media"@, "Media"@),
        ("real_estate"@, "Real estate"@),
        ("robotics"@, "Robotics"@),
        ("saas"@, "SaaS"@),
        ("security"@, "Security"@),
    ]
}

/// The sectors a founder can list as interests.
pub fn interests() -> (r: Vec<Choice>)
    ensures
        choices_view(r@) == interests_table(),
{
    let mut r: Vec<Choice> = Vec::new();
    r.push(Choice { id: "ai_ml", label: "AI / ML" });
    r.push(Choice { id: "agritech", label: "Agriculture" });
    r.push(Choice { id: "biotech", label: "Biotech" });
    r.push(Choice { id: "climate", label: "Climate" });
    r.push(Choice { id: "consumer_social", label: "Consumer / Social" });
    r.push(Choice { id: "developer_tools", label: "Developer tools" });
    r.push(Choice { id: "ecommerce", label: "E-commerce" });
    r.push(Choice { id: "edtech", label: "Education" });
    r.push(Choice { id: "fintech", label: "Fintech" });
    r.push(Choice { id: "gaming", label: "Gaming" });
    r.push(Choice { id: "healthtech", label: "Health" });
    r.push(Choice { id: "logistics", label: "Logistics" });
    r.push(Choice { id: "marketplace", label: "Marketplaces" });
    r.push(Choice { id: "media", label: "Media" });
    r.push(Choice { id: "real_estate", label: "Real estate" });
    r.push(Choice { id: "robotics", label: "Robotics" });
    r.push(Choice { id: "saas", label: "SaaS" });
    r.push(Choice { id: "security", label: "Security" });
    assert(choices_view(r@) =~= interests_table());
    r
}

/// The reasons a member can give when reporting another. Served alongside the
/// profile vocabularies, so the report form's wording cannot drift.
pub open spec fn report_reasons_table() -> Seq<(Seq<char>, Seq<char>)> {
    seq![
        ("harassment"@, "Harassment or abuse"@),
        ("spam"@, "Spam or advertising"@),
        ("impersonation"@, "Impersonation or a fake profile"@),
        ("off_topic"@, "Not here to find a cofounder"@),
        ("other"@, "Something else"@),
    ]
}

/// The reasons a member can give when reporting another. Served alongside the
/// profile vocabularies, so the report form's wording cannot drift.
pub fn report_reasons() -> (r: Vec<Choice>)
    ensures
        choices_view(r@) == report_reasons_table(),
{
    let mut r: Vec<Choice> = Vec::new();
    r.push(Choice { id: "harassment", label: "Harassment or abuse" });
    r.push(Choice { id: "spam", label: "Spam or advertising" });
    r.push(Choice { id: "impersonation", label: "Impersonation or a fake profile" });
    r.push(Choice { id: "off_topic", label: "Not here to find a cofounder" });
    r.push(Choice { id: "other", label: "Something else" });
    assert(choices_view(r@) =~= report_reasons_table());
    r
}

/// A label is found exactly for the ids that are among the choices, and it
/// belongs to a choice with that id.
pub proof fn lemma_label_iff_contains(cs: Seq<(Seq<char>, Seq<char>)>, id: Seq<char>)
    ensures
        label_of(cs, id) is Some <==> has_id(cs, id),
        label_of(cs, id) matches Some(l) ==> exists|i: int| 0 <= i < cs.len() && cs[i] == (id, l),
    decreases cs.len(),
{
    if cs.len() > 0 {
        let rest = cs.drop_first();
        lemma_label_iff_contains(rest, id);
        if has_id(cs, id) && cs[0].0 != id {
            let i = choose|i: int| 0 <= i < cs.len() && (#[trigger] cs[i]).0 == id;
            assert(rest[i - 1].0 == id);
        }
        if has_id(rest, id) {
            let i = choose|i: int| 0 <= i < rest.len() && (#[trigger] rest[i]).0 == id;
            assert(cs[i + 1].0 == id);
        }
        if cs[0].0 != id {
            if let Some(l) = label_of(rest, id) {
                let i = choose|i: int| 0 <= i < rest.len() && rest[i] == (id, l);
                assert(cs[i + 1] == (id, l));
            }
        } else {
            assert(cs[0] == (id, cs[0].1));
        }
    }
}

/// Whether `id` is one of the ids in `choices`.
pub fn contains(choices: &[Choice], id: &str) -> (r: bool)
    ensures
        r == has_id(choices_view(choices@), id@),
{
    let mut i: usize = 0;
    while i < choices.len()
        invariant
            i <= choices@.len(),
            forall|k: int| 0 <= k < i ==> (#[trigger] choices@[k])@.0 != id@,
        decreases choices.len() - i,
    {
        if crate::text::same_text(choices[i].id, id) {
            assert(choices_view(choices@)[i as int].0 == id@);
            return true;
        }
        i = i + 1;
    }
    assert forall|k: int| 0 <= k < choices@.len() implies (#[trigger] choices_view(choices@)[k]).0
        != id@ by {
        assert(choices@[k]@.0 != id@);
    }
    false
}

/// The label that goes with `id`, if `id` is one of the choices.
pub fn label(choices: &[Choice], id: &str) -> (r: Option<&'static str>)
    ensures
        match r {
            Some(l) => label_of(choices_view(choices@), id@) == Some(l@),
            None => label_of(choices_view(choices@), id@) is None,
        },
{
    let ghost cs = choices_view(choices@);
    let mut i: usize = 0;
    assert(cs.skip(0) =~= cs);
    while i < choices.len()
        invariant
            i <= choices@.len(),
            cs == choices_view(choices@),
            label_of(cs, id@) == label_of(cs.skip(i as int), id@),
        decreases choices.len() - i,
    {
        assert(cs.skip(i as int).drop_first() =~= cs.skip(i + 1));
        if crate::text::same_text(choices[i].id, id) {
            return Some(choices[i].label);
        }
        i = i + 1;
    }
    None
}

/// The position of `id` among `choices`, if it is one of them.
pub fn position(choices: &[Choice], id: &str) -> (r: Option<usize>)
    ensures
        match r {
            Some(p) => position_of(choices_view(choices@), id@) == Some(p as int),
            None => position_of(choices_view(choices@), id@) is None,
        },
{
    let ghost cs = choices_view(choices@);
    let mut i: usize = 0;
    assert(cs.skip(0) =~= cs);
    while i < choices.len()
        invariant
            i <= choices@.len(),
            cs == choices_view(choices@),
            position_of(cs, id@) == match position_of(cs.skip(i as int), id@) {
                Some(p) => Some(p + i),
                None => None,
            },
        decreases choices.len() - i,
    {
        assert(cs.skip(i as int).drop_first() =~= cs.skip(i + 1));
        if crate::text::same_text(choices[i].id, id) {
            return Some(i);
        }
        i = i + 1;
    }
    None
}

} // verus!
