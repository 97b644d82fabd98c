//! The group classifier: from a taxonomy record and the operator's override
//! rules to the name of the group that a critter should be filed under.

use crate::keys::{lemma_position, position};
use crate::taxonomy::{Taxon, TaxonView};
use crate::text::{key_of, normalize};
use vstd::prelude::*;
use vstd::string::StringExecFns;

verus! {

/// The name of the group for species that cannot be classified.
pub const FALLBACK_GROUP: &'static str = "Unclassified";

/// The name of a critter's desired group, and where it comes from.
#[derive(Clone, Debug, PartialEq, Eq)]
pub enum GroupName {
    /// An override rule forces this name.
    Forced(String),
    /// The taxonomy service groups the species under this name.
    Derived(String),
    /// Neither a rule nor the service names a group: the fallback.
    Unclassified,
}

/// A group name as contracts see it.
pub ghost enum GroupNameView {
    Forced(Seq<char>),
    Derived(Seq<char>),
    Unclassified,
}

impl DeepView for GroupName {
    type V = GroupNameView;

    open spec fn deep_view(&self) -> GroupNameView {
        match self {
            GroupName::Forced(name) => GroupNameView::Forced(name@),
            GroupName::Derived(name) => GroupNameView::Derived(name@),
            GroupName::Unclassified => GroupNameView::Unclassified,
        }
    }
}

impl View for GroupName {
    type V = GroupNameView;

    open spec fn view(&self) -> GroupNameView {
        self.deep_view()
    }
}

/// The name as it is displayed.
pub open spec fn display(group: GroupNameView) -> Seq<char> {
    match group {
        GroupNameView::Forced(name) => name,
        GroupNameView::Derived(name) => name,
        GroupNameView::Unclassified => FALLBACK_GROUP@,
    }
}

impl GroupName {
    /// The name as it is displayed.
    pub fn to_string(&self) -> (out: String)
        ensures
            out@ == display(self@),
    {
        match self {
            GroupName::Forced(name) => name.clone(),
            GroupName::Derived(name) => name.clone(),
            GroupName::Unclassified => String::from_str(FALLBACK_GROUP),
        }
    }

    /// Tells whether the name is the fallback.
    pub fn is_gap(&self) -> (out: bool)
        ensures
            out == (self@ is Unclassified),
    {
        match self {
            GroupName::Unclassified => true,
            _ => false,
        }
    }
}

/// One override rule: a species or a group, and the group name forced on it.
#[derive(Clone, Debug, PartialEq, Eq)]
pub struct OverrideRule {
    /// The scientific name of a species, or the name of a group.
    pub key: String,
    /// The group name that the rule forces.
    pub group: String,
}

/// A rule as contracts see it.
pub ghost struct RuleView {
    pub key: Seq<char>,
    pub group: Seq<char>,
}

impl DeepView for OverrideRule {
    type V = RuleView;

    open spec fn deep_view(&self) -> RuleView {
        RuleView { key: self.key@, group: self.group@ }
    }
}

impl View for OverrideRule {
    type V = RuleView;

    open spec fn view(&self) -> RuleView {
        self.deep_view()
    }
}

/// The operator's override rules for critter categories, in the order in
/// which they were written.
#[derive(Clone, Debug, PartialEq, Eq)]
pub struct CritterCategoryOverride {
    pub rules: Vec<OverrideRule>,
}

impl Default for CritterCategoryOverride {
    fn default() -> (out: CritterCategoryOverride)
        ensures
            out.rules@ == Seq::<OverrideRule>::empty(),
    {
        CritterCategoryOverride { rules: Vec::new() }
    }
}

/// The group that the service names, with its key.
#[derive(Clone, Debug, PartialEq, Eq)]
pub struct Candidate {
    pub name: String,
    pub key: String,
}

/// A candidate as contracts see it.
pub ghost struct CandidateView {
    pub name: Seq<char>,
    pub key: Seq<char>,
}

impl DeepView for Candidate {
    type V = CandidateView;

    open spec fn deep_view(&self) -> CandidateView {
        CandidateView { name: self.name@, key: self.key@ }
    }
}

impl View for Candidate {
    type V = CandidateView;

    open spec fn view(&self) -> CandidateView {
        self.deep_view()
    }
}

/// The keys of the rules, in order.
pub open spec fn rule_keys(rules: Seq<RuleView>) -> Seq<Seq<char>> {
    Seq::new(rules.len(), |i: int| rules[i].key)
}

/// The group name that the first rule with the key `key` forces.
pub open spec fn forced(rules: Seq<RuleView>, key: Seq<char>) -> Option<Seq<char>> {
    match position(rule_keys(rules), key) {
        Some(i) => Some(rules[i].group),
        None => None,
    }
}

/// The classification, over keys. A rule for the species comes first, then
/// a rule for the group that the service names, then that group itself, and
/// the fallback where the service names none. Among several rules with one
/// key the first counts.
pub open spec fn classified(
    species_key: Seq<char>,
    candidate: Option<CandidateView>,
    rules: Seq<RuleView>,
) -> GroupNameView {
    match forced(rules, species_key) {
        Some(group) => GroupNameView::Forced(group),
        None => match candidate {
            Some(c) => match forced(rules, c.key) {
                Some(group) => GroupNameView::Forced(group),
                None => GroupNameView::Derived(c.name),
            },
            None => GroupNameView::Unclassified,
        },
    }
}

/// The rules with each key replaced by the key of the name it holds.
pub open spec fn keyed_rules(rules: Seq<RuleView>) -> Seq<RuleView> {
    Seq::new(rules.len(), |i: int| RuleView { key: key_of(rules[i].key), group: rules[i].group })
}

/// The group that the service names for the taxon, with its key.
pub open spec fn candidate_of(taxon: TaxonView) -> Option<CandidateView> {
    match taxon.group {
        Some(name) => Some(CandidateView { name, key: key_of(name) }),
        None => None,
    }
}

/// The classification of a taxon under the rules as written.
pub open spec fn classification(taxon: TaxonView, rules: Seq<RuleView>) -> GroupNameView {
    classified(key_of(taxon.scientific_name), candidate_of(taxon), keyed_rules(rules))
}

/// The group name that the first rule with the key `key` forces.
fn find_forced<'a>(rules: &'a Vec<OverrideRule>, key: &String) -> (out: Option<&'a String>)
    ensures
        out.deep_view() == forced(rules.deep_view(), key@),
{
    let mut i: usize = 0;
    while i < rules.len()
        invariant
            i <= rules.len(),
            forall|j: int| 0 <= j < i ==> #[trigger] rule_keys(rules.deep_view())[j] != key@,
        decreases rules.len() - i,
    {
        if rules[i].key == *key {
            proof {
                lemma_position(rule_keys(rules.deep_view()), key@, i as int);
            }
            return Some(&rules[i].group);
        }
        i = i + 1;
    }
    None
}

/// Classifies over keys: see `classified`. The rules carry keys.
pub fn classify_keyed(
    species_key: &String,
    candidate: &Option<Candidate>,
    rules: &Vec<OverrideRule>,
) -> (out: GroupName)
    ensures
        out@ == classified(species_key@, candidate.deep_view(), rules.deep_view()),
{
    match find_forced(rules, species_key) {
        Some(group) => GroupName::Forced(group.clone()),
        None => match candidate {
            Some(c) => match find_forced(rules, &c.key) {
                Some(group) => GroupName::Forced(group.clone()),
                None => GroupName::Derived(c.name.clone()),
            },
            None => GroupName::Unclassified,
        },
    }
}

/// The rules with their keys normalized.
pub fn normalize_rules(rules: &Vec<OverrideRule>) -> (out: Vec<OverrideRule>)
    ensures
        out.deep_view() == keyed_rules(rules.deep_view()),
{
    let mut out: Vec<OverrideRule> = Vec::new();
    let mut i: usize = 0;
    while i < rules.len()
        invariant
            i <= rules.len(),
            out.deep_view() == keyed_rules(rules.deep_view()).take(i as int),
        decreases rules.len() - i,
    {
        let ghost before = out.deep_view();
        let rule = OverrideRule {
            key: normalize(rules[i].key.as_str()),
            group: rules[i].group.clone(),
        };
        out.push(rule);
        assert(out.deep_view() =~= before.push(keyed_rules(rules.deep_view())[i as int]));
        i = i + 1;
    }
    out
}

/// Classifies a taxon: the group that the critters of its species should be
/// filed under. It never fails: a species that no rule covers and that the
/// service files under no group gets the fallback, `GroupName::Unclassified`.
pub fn classify(taxon: &Taxon, overrides: &CritterCategoryOverride) -> (out: GroupName)
    ensures
        out@ == classification(taxon@, overrides.rules.deep_view()),
{
    let rules = normalize_rules(&overrides.rules);
    let species_key = normalize(taxon.scientific_name.as_str());
    let candidate = match &taxon.group {
        Some(name) => Some(Candidate { name: name.clone(), key: normalize(name.as_str()) }),
        None => None,
    };
    classify_keyed(&species_key, &candidate, &rules)
}

} // verus!
