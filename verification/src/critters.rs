//! The two comparisons of the catalog with the taxonomy: of the critters'
//! names, and of the categories they are filed under. Both read the cache,
//! which the caller has primed.

use crate::catalog::{CategoryView, Critter, CritterCategory, CritterView};
use crate::groups::{
    classification, classify_keyed, display, keyed_rules, normalize_rules, Candidate,
    CritterCategoryOverride, GroupName, GroupNameView, RuleView,
};
use crate::ledger::{reconciled, Slot, SubjectView, Wish};
use crate::names::{
    compared, convertible, diff_critter, forms_of, CritterDiff, CritterDiffView, NameError,
};
use crate::plan::ResolveError;
use crate::priming::CacheView;
use crate::reconcile::{reconcile_keyed, KeyedCategory, KeyedGroup, Reconciliation, Subject};
use crate::taxonomy::{resolved, TaxonCache};
use crate::text::{key_of, normalize};
use vstd::prelude::*;

verus! {

/// A critter, where it is filed, and the group it should be filed under or
/// the reason why that is not known.
#[derive(Debug, PartialEq, Eq)]
pub struct Assignment {
    /// The critter's identifier.
    pub critter: i64,
    /// The identifier of the category it is filed under.
    pub category: Option<i64>,
    /// The desired group.
    pub desired: Result<GroupName, ResolveError>,
}

/// An assignment as contracts see it.
pub ghost struct AssignmentView {
    pub critter: i64,
    pub category: Option<i64>,
    pub desired: Result<GroupNameView, ResolveError>,
}

impl DeepView for Assignment {
    type V = AssignmentView;

    open spec fn deep_view(&self) -> AssignmentView {
        AssignmentView {
            critter: self.critter,
            category: self.category,
            desired: match self.desired {
                Ok(group) => Ok(group@),
                Err(e) => Err(e),
            },
        }
    }
}

impl View for Assignment {
    type V = AssignmentView;

    open spec fn view(&self) -> AssignmentView {
        self.deep_view()
    }
}

/// The desired group as the reconciler reads it: under the name it is
/// displayed with, keyed by that name.
pub open spec fn wish_of(group: GroupNameView) -> Wish {
    Wish { name: display(group), key: key_of(display(group)), gap: group is Unclassified }
}

/// The assignment as the reconciler reads it.
pub open spec fn subject_of(a: AssignmentView) -> SubjectView {
    SubjectView {
        id: a.critter,
        category: a.category,
        desired: match a.desired {
            Ok(group) => Ok(wish_of(group)),
            Err(e) => Err(e),
        },
    }
}

/// The assignments as the reconciler reads them.
pub open spec fn subjects_of(assignments: Seq<AssignmentView>) -> Seq<SubjectView> {
    Seq::new(assignments.len(), |i: int| subject_of(assignments[i]))
}

/// Those of the first `n` categories that have a name, each with the key of
/// its name, in catalog order.
pub open spec fn slots_first(categories: Seq<CategoryView>, n: nat) -> Seq<Slot>
    decreases n,
{
    if n == 0 {
        Seq::empty()
    } else {
        let head = slots_first(categories, (n - 1) as nat);
        match categories[n - 1].name {
            Some(name) => head.push(Slot { id: categories[n - 1].id, name, key: key_of(name) }),
            None => head,
        }
    }
}

/// The categories that have a name, each with the key of its name.
pub open spec fn slots_of(categories: Seq<CategoryView>) -> Seq<Slot> {
    slots_first(categories, categories.len())
}

/// The group that a critter should be filed under, read from the cache: the
/// classification of its species' record, or the reason why there is none.
pub open spec fn desired_of(critter: CritterView, cache: CacheView, rules: Seq<RuleView>) -> Result<
    GroupNameView,
    ResolveError,
> {
    match critter.species {
        Some(name) => match resolved(cache, key_of(name)) {
            Ok(taxon) => Ok(classification(taxon, rules)),
            Err(e) => Err(e),
        },
        None => Err(ResolveError::MissingSpecies),
    }
}

/// The critters with their desired groups.
pub open spec fn assignments_of(critters: Seq<CritterView>, cache: CacheView, rules: Seq<RuleView>)
    -> Seq<AssignmentView> {
    Seq::new(
        critters.len(),
        |i: int|
            AssignmentView {
                critter: critters[i].id,
                category: critters[i].category,
                desired: desired_of(critters[i], cache, rules),
            },
    )
}

/// The categories that have a name, each with the key of its name.
pub fn keyed_categories(categories: &Vec<CritterCategory>) -> (out: Vec<KeyedCategory>)
    ensures
        out.deep_view() == slots_of(categories.deep_view()),
{
    let mut out: Vec<KeyedCategory> = Vec::new();
    let mut i: usize = 0;
    while i < categories.len()
        invariant
            i <= categories.len(),
            out.deep_view() == slots_first(categories.deep_view(), i as nat),
        decreases categories.len() - i,
    {
        match &categories[i].name {
            Some(name) => {
                let keyed = KeyedCategory {
                    id: categories[i].id,
                    name: name.clone(),
                    key: normalize(name.as_str()),
                };
                out.push(keyed);
            },
            None => {},
        }
        i = i + 1;
    }
    out
}

/// The desired group with its displayed name and key.
pub fn keyed_group(group: &GroupName) -> (out: KeyedGroup)
    ensures
        out@ == wish_of(group@),
{
    let name = group.to_string();
    let key = normalize(name.as_str());
    KeyedGroup { name, key, gap: group.is_gap() }
}

/// The assignments as the reconciler reads them.
pub fn keyed_subjects(assignments: &Vec<Assignment>) -> (out: Vec<Subject>)
    ensures
        out.deep_view() == subjects_of(assignments.deep_view()),
{
    let mut out: Vec<Subject> = Vec::new();
    let mut i: usize = 0;
    while i < assignments.len()
        invariant
            i <= assignments.len(),
            out.deep_view() == subjects_of(assignments.deep_view()).take(i as int),
        decreases assignments.len() - i,
    {
        let ghost before = out.deep_view();
        let desired = match &assignments[i].desired {
            Ok(group) => Ok(keyed_group(group)),
            Err(e) => Err(*e),
        };
        let subject = Subject {
            id: assignments[i].critter,
            category: assignments[i].category,
            desired,
        };
        out.push(subject);
        assert(out.deep_view() =~= before.push(subject_of(assignments[i as int]@)));
        i = i + 1;
    }
    out
}

/// Computes the plan for critters whose desired groups are known. Names are
/// matched by their keys; the critters are processed in the order given.
pub fn reconcile(assignments: &Vec<Assignment>, categories: &Vec<CritterCategory>) -> (out:
    Reconciliation)
    ensures
        out@ == reconciled(
            subjects_of(assignments.deep_view()),
            slots_of(categories.deep_view()),
        ),
{
    let subjects = keyed_subjects(assignments);
    let keyed = keyed_categories(categories);
    reconcile_keyed(&subjects, &keyed)
}

/// Reads each critter's desired group from the cache.
pub fn resolve_critters(
    critters: &Vec<Critter>,
    cache: &TaxonCache,
    overrides: &CritterCategoryOverride,
) -> (out: Vec<Assignment>)
    ensures
        out.deep_view() == assignments_of(
            critters.deep_view(),
            cache@,
            overrides.rules.deep_view(),
        ),
{
    let rules = normalize_rules(&overrides.rules);
    let ghost all = assignments_of(critters.deep_view(), cache@, overrides.rules.deep_view());
    let mut out: Vec<Assignment> = Vec::new();
    let mut i: usize = 0;
    while i < critters.len()
        invariant
            i <= critters.len(),
            rules.deep_view() == keyed_rules(overrides.rules.deep_view()),
            all == assignments_of(critters.deep_view(), cache@, overrides.rules.deep_view()),
            out.deep_view() == all.take(i as int),
        decreases critters.len() - i,
    {
        let ghost before = out.deep_view();
        let critter = &critters[i];
        let desired = match &critter.species {
            Some(name) => match cache.resolve(name.as_str()) {
                Ok(taxon) => {
                    let species_key = normalize(taxon.scientific_name.as_str());
                    let candidate = match &taxon.group {
                        Some(group) => Some(
                            Candidate { name: group.clone(), key: normalize(group.as_str()) },
                        ),
                        None => None,
                    };
                    Ok(classify_keyed(&species_key, &candidate, &rules))
                },
                Err(e) => Err(e),
            },
            None => Err(ResolveError::MissingSpecies),
        };
        let assignment = Assignment { critter: critter.id, category: critter.category, desired };
        out.push(assignment);
        assert(out.deep_view() =~= before.push(all[i as int]));
        i = i + 1;
    }
    out
}

/// Reconciles the critters' categories with the taxonomy. Each critter's
/// desired group is read from the cache, which the caller has primed, and
/// classified under the override rules; then the plan is computed.
///
/// A critter without a species, or whose species has no record, gets a
/// diagnostic and no plan entry. The other critters are not affected.
pub fn diff_critter_categories(
    critters: &Vec<Critter>,
    categories: &Vec<CritterCategory>,
    cache: &TaxonCache,
    overrides: &CritterCategoryOverride,
) -> (out: Reconciliation)
    ensures
        out@ == reconciled(
            subjects_of(
                assignments_of(critters.deep_view(), cache@, overrides.rules.deep_view()),
            ),
            slots_of(categories.deep_view()),
        ),
{
    let assignments = resolve_critters(critters, cache, overrides);
    reconcile(&assignments, categories)
}

/// What the comparison gives for one critter, read from the cache.
pub open spec fn outcome_of(critter: CritterView, cache: CacheView) -> Result<
    CritterDiffView,
    NameError,
> {
    match critter.species {
        Some(species) => match resolved(cache, key_of(species)) {
            Ok(taxon) => if convertible(critter.name, species, taxon) {
                Ok(compared(critter.id, forms_of(critter.name, species, taxon)))
            } else {
                Err(NameError::Unconvertible)
            },
            Err(e) => Err(NameError::Unresolved(e)),
        },
        None => Err(NameError::Unresolved(ResolveError::MissingSpecies)),
    }
}

/// The outcome of a comparison as contracts see it.
pub open spec fn diff_view(outcome: Result<CritterDiff, NameError>) -> Result<
    CritterDiffView,
    NameError,
> {
    match outcome {
        Ok(diff) => Ok(diff@),
        Err(e) => Err(e),
    }
}

/// Compares the names of every critter with those of its taxon, read from
/// the cache, which the caller has primed. The outcomes stand in catalog
/// order, one for each critter. A critter whose species has no record gets
/// the reason, and the others are not affected.
pub fn diff_critters(critters: &Vec<Critter>, cache: &TaxonCache) -> (out: Vec<
    Result<CritterDiff, NameError>,
>)
    ensures
        out.len() == critters.len(),
        forall|i: int|
            0 <= i < critters.len() ==> diff_view(#[trigger] out@[i]) == outcome_of(
                critters.deep_view()[i],
                cache@,
            ),
{
    let mut out: Vec<Result<CritterDiff, NameError>> = Vec::new();
    let mut i: usize = 0;
    while i < critters.len()
        invariant
            i <= critters.len(),
            out.len() == i,
            forall|j: int|
                0 <= j < i ==> diff_view(#[trigger] out@[j]) == outcome_of(
                    critters.deep_view()[j],
                    cache@,
                ),
        decreases critters.len() - i,
    {
        let critter = &critters[i];
        let outcome = match &critter.species {
            Some(species) => match cache.resolve(species.as_str()) {
                Ok(taxon) => diff_critter(critter.id, &critter.name, species.as_str(), taxon),
                Err(e) => Err(NameError::Unresolved(e)),
            },
            None => Err(NameError::Unresolved(ResolveError::MissingSpecies)),
        };
        out.push(outcome);
        i = i + 1;
    }
    out
}

} // verus!
