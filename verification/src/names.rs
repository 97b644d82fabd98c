//! Comparing the names in the catalog with the names the taxonomy prefers.
//!
//! Names are compared in fixed forms: common names trimmed and in title
//! case, scientific names in sentence case. The comparison itself works on
//! names that are in those forms already; `diff_critter` brings them there.

use crate::plan::ResolveError;
use crate::taxonomy::{Taxon, TaxonView};
use crate::text::{
    sentence_case, sentence_case_of, sentence_case_takes, takes_sentence_case, takes_title_case,
    title_case, title_case_of, title_case_takes, trim, trimmed,
};
use vstd::prelude::*;

verus! {

/// The changes to make to one critter. A field that is `None` stays as it
/// is.
#[derive(Clone, Debug, PartialEq, Eq)]
pub struct CritterUpdate {
    pub id: i64,
    pub common_name: Option<String>,
    pub scientific_name: Option<String>,
    pub category: Option<i64>,
}

/// An update as contracts see it.
pub ghost struct CritterUpdateView {
    pub id: i64,
    pub common_name: Option<Seq<char>>,
    pub scientific_name: Option<Seq<char>>,
    pub category: Option<i64>,
}

impl DeepView for CritterUpdate {
    type V = CritterUpdateView;

    open spec fn deep_view(&self) -> CritterUpdateView {
        CritterUpdateView {
            id: self.id,
            common_name: self.common_name.deep_view(),
            scientific_name: self.scientific_name.deep_view(),
            category: self.category,
        }
    }
}

impl View for CritterUpdate {
    type V = CritterUpdateView;

    open spec fn view(&self) -> CritterUpdateView {
        self.deep_view()
    }
}

impl CritterUpdate {
    /// An update of the critter `id` that changes nothing.
    pub fn new(id: i64) -> (out: CritterUpdate)
        ensures
            out@ == (CritterUpdateView {
                id,
                common_name: None,
                scientific_name: None,
                category: None,
            }),
    {
        CritterUpdate { id, common_name: None, scientific_name: None, category: None }
    }

    /// Tells whether the update changes anything.
    pub fn has_changes(&self) -> (out: bool)
        ensures
            out == (self@.common_name is Some || self@.scientific_name is Some || self@.category
                is Some),
    {
        self.common_name.is_some() || self.scientific_name.is_some() || self.category.is_some()
    }
}

/// What the comparison of a critter's names found.
#[derive(Clone, Debug, PartialEq, Eq)]
pub enum NameFinding {
    /// The catalog and the taxonomy differ on the scientific name.
    MismatchedScientificName { current: String, preferred: String },
    /// The catalog and the taxonomy differ on the common name.
    MismatchedCommonName { current: String, preferred: String },
    /// The catalog has no common name and the taxonomy has one.
    NewCommonName { scientific_name: String, preferred: String },
    /// Neither has a common name.
    NoCommonName { scientific_name: String },
}

/// A finding as contracts see it.
pub ghost enum NameFindingView {
    MismatchedScientificName { current: Seq<char>, preferred: Seq<char> },
    MismatchedCommonName { current: Seq<char>, preferred: Seq<char> },
    NewCommonName { scientific_name: Seq<char>, preferred: Seq<char> },
    NoCommonName { scientific_name: Seq<char> },
}

impl DeepView for NameFinding {
    type V = NameFindingView;

    open spec fn deep_view(&self) -> NameFindingView {
        match self {
            NameFinding::MismatchedScientificName {
                current,
                preferred,
            } => NameFindingView::MismatchedScientificName {
                current: current@,
                preferred: preferred@,
            },
            NameFinding::MismatchedCommonName {
                current,
                preferred,
            } => NameFindingView::MismatchedCommonName { current: current@, preferred: preferred@ },
            NameFinding::NewCommonName {
                scientific_name,
                preferred,
            } => NameFindingView::NewCommonName {
                scientific_name: scientific_name@,
                preferred: preferred@,
            },
            NameFinding::NoCommonName { scientific_name } => NameFindingView::NoCommonName {
                scientific_name: scientific_name@,
            },
        }
    }
}

impl View for NameFinding {
    type V = NameFindingView;

    open spec fn view(&self) -> NameFindingView {
        self.deep_view()
    }
}

/// The names of a critter and of its taxon, in the forms they are compared
/// in.
#[derive(Clone, Debug, PartialEq, Eq)]
pub struct NameForms {
    /// The critter's name, trimmed, in title case.
    pub current_name: Option<String>,
    /// The taxon's preferred common name, trimmed, in title case.
    pub preferred_name: Option<String>,
    /// The critter's species in title case, as findings show it.
    pub shown_species: String,
    /// The critter's species in sentence case.
    pub current_species: String,
    /// The taxon's scientific name in sentence case.
    pub preferred_species: String,
}

/// Name forms as contracts see them.
pub ghost struct NameFormsView {
    pub current_name: Option<Seq<char>>,
    pub preferred_name: Option<Seq<char>>,
    pub shown_species: Seq<char>,
    pub current_species: Seq<char>,
    pub preferred_species: Seq<char>,
}

impl DeepView for NameForms {
    type V = NameFormsView;

    open spec fn deep_view(&self) -> NameFormsView {
        NameFormsView {
            current_name: self.current_name.deep_view(),
            preferred_name: self.preferred_name.deep_view(),
            shown_species: self.shown_species@,
            current_species: self.current_species@,
            preferred_species: self.preferred_species@,
        }
    }
}

impl View for NameForms {
    type V = NameFormsView;

    open spec fn view(&self) -> NameFormsView {
        self.deep_view()
    }
}

/// The outcome of comparing one critter's names.
#[derive(Clone, Debug, PartialEq, Eq)]
pub struct CritterDiff {
    /// The changes that bring the critter in line with the taxonomy.
    pub changeset: CritterUpdate,
    /// What was found, the scientific name first.
    pub findings: Vec<NameFinding>,
}

/// A diff as contracts see it.
pub ghost struct CritterDiffView {
    pub changeset: CritterUpdateView,
    pub findings: Seq<NameFindingView>,
}

impl DeepView for CritterDiff {
    type V = CritterDiffView;

    open spec fn deep_view(&self) -> CritterDiffView {
        CritterDiffView { changeset: self.changeset@, findings: self.findings.deep_view() }
    }
}

impl View for CritterDiff {
    type V = CritterDiffView;

    open spec fn view(&self) -> CritterDiffView {
        self.deep_view()
    }
}

/// What is found about the scientific name.
pub open spec fn species_findings(forms: NameFormsView) -> Seq<NameFindingView> {
    if forms.current_species != forms.preferred_species {
        seq![
            NameFindingView::MismatchedScientificName {
                current: forms.current_species,
                preferred: forms.preferred_species,
            },
        ]
    } else {
        Seq::empty()
    }
}

/// What is found about the common name.
pub open spec fn common_findings(forms: NameFormsView) -> Seq<NameFindingView> {
    match (forms.current_name, forms.preferred_name) {
        (Some(current), Some(preferred)) => if preferred != current {
            seq![NameFindingView::MismatchedCommonName { current, preferred }]
        } else {
            Seq::empty()
        },
        (None, Some(preferred)) => seq![
            NameFindingView::NewCommonName { scientific_name: forms.shown_species, preferred },
        ],
        (Some(_), None) => Seq::empty(),
        (None, None) => seq![
            NameFindingView::NoCommonName { scientific_name: forms.shown_species },
        ],
    }
}

/// The common name to set: the preferred one, where there is one and the
/// critter's differs from it or is missing.
pub open spec fn common_change(forms: NameFormsView) -> Option<Seq<char>> {
    match (forms.current_name, forms.preferred_name) {
        (Some(current), Some(preferred)) => if preferred != current {
            Some(preferred)
        } else {
            None
        },
        (None, Some(preferred)) => Some(preferred),
        _ => None,
    }
}

/// The comparison of one critter's names.
pub open spec fn compared(id: i64, forms: NameFormsView) -> CritterDiffView {
    CritterDiffView {
        changeset: CritterUpdateView {
            id,
            common_name: common_change(forms),
            scientific_name: if forms.current_species != forms.preferred_species {
                Some(forms.preferred_species)
            } else {
                None
            },
            category: None,
        },
        findings: species_findings(forms) + common_findings(forms),
    }
}

/// Compares the names of the critter `id` with those of its taxon. The
/// names are in their forms already.
pub fn compare_names(id: i64, forms: &NameForms) -> (out: CritterDiff)
    ensures
        out@ == compared(id, forms@),
{
    let mut changeset = CritterUpdate::new(id);
    let mut findings: Vec<NameFinding> = Vec::new();
    if forms.current_species != forms.preferred_species {
        findings.push(
            NameFinding::MismatchedScientificName {
                current: forms.current_species.clone(),
                preferred: forms.preferred_species.clone(),
            },
        );
        changeset.scientific_name = Some(forms.preferred_species.clone());
    }
    assert(findings.deep_view() =~= species_findings(forms@));
    let ghost first = findings.deep_view();
    match (&forms.current_name, &forms.preferred_name) {
        (Some(current), Some(preferred)) => {
            if *preferred != *current {
                findings.push(
                    NameFinding::MismatchedCommonName {
                        current: current.clone(),
                        preferred: preferred.clone(),
                    },
                );
                changeset.common_name = Some(preferred.clone());
            }
        },
        (None, Some(preferred)) => {
            findings.push(
                NameFinding::NewCommonName {
                    scientific_name: forms.shown_species.clone(),
                    preferred: preferred.clone(),
                },
            );
            changeset.common_name = Some(preferred.clone());
        },
        (Some(_), None) => {},
        (None, None) => {
            findings.push(
                NameFinding::NoCommonName { scientific_name: forms.shown_species.clone() },
            );
        },
    }
    assert(findings.deep_view() =~= first + common_findings(forms@));
    CritterDiff { changeset, findings }
}

/// The common name in the form it is compared in.
pub open spec fn common_form(name: Option<Seq<char>>) -> Option<Seq<char>> {
    match name {
        Some(n) => Some(title_case_of(trimmed(n))),
        None => None,
    }
}

/// The names of a critter and its taxon in the forms they are compared in.
pub open spec fn forms_of(name: Option<Seq<char>>, species: Seq<char>, taxon: TaxonView)
    -> NameFormsView {
    NameFormsView {
        current_name: common_form(name),
        preferred_name: common_form(taxon.preferred_common_name),
        shown_species: title_case_of(species),
        current_species: sentence_case_of(title_case_of(species)),
        preferred_species: sentence_case_of(taxon.scientific_name),
    }
}

/// The common name can be brought into its form: trimmed, it can be put
/// into title case.
pub open spec fn common_convertible(name: Option<Seq<char>>) -> bool {
    name matches Some(n) ==> title_case_takes(trimmed(n))
}

/// The names can be brought into their forms: the common names and the
/// species can be put into title case, and the species in title case and
/// the taxon's scientific name can be put into sentence case.
pub open spec fn convertible(name: Option<Seq<char>>, species: Seq<char>, taxon: TaxonView)
    -> bool {
    &&& common_convertible(name)
    &&& common_convertible(taxon.preferred_common_name)
    &&& title_case_takes(species)
    &&& sentence_case_takes(taxon.scientific_name)
    &&& sentence_case_takes(title_case_of(species))
}

/// Why a critter's names were not compared.
#[derive(Clone, Copy, Debug, PartialEq, Eq, Structural)]
pub enum NameError {
    /// The critter has no species, or its species has no record.
    Unresolved(ResolveError),
    /// A name cannot be brought into the form it is compared in.
    Unconvertible,
}

/// The common name in its form, if it can be brought there.
fn common_name_form(name: &Option<String>) -> (out: Option<Option<String>>)
    ensures
        match out {
            Some(form) => common_convertible(name.deep_view()) && form.deep_view() == common_form(
                name.deep_view(),
            ),
            None => !common_convertible(name.deep_view()),
        },
{
    match name {
        Some(n) => {
            let t = trim(n.as_str());
            if takes_title_case(t.as_str()) {
                Some(Some(title_case(t.as_str())))
            } else {
                None
            }
        },
        None => Some(None),
    }
}

/// Compares the names of a critter with those of its taxon.
///
/// The critter's name and the taxon's preferred common name are trimmed and
/// put into title case; the species is put into title case and then, like
/// the taxon's scientific name, into sentence case. Names that cannot be
/// converted give `NameError::Unconvertible`.
pub fn diff_critter(id: i64, name: &Option<String>, species: &str, taxon: &Taxon) -> (out: Result<
    CritterDiff,
    NameError,
>)
    ensures
        match out {
            Ok(diff) => convertible(name.deep_view(), species@, taxon@) && diff@ == compared(
                id,
                forms_of(name.deep_view(), species@, taxon@),
            ),
            Err(e) => e == NameError::Unconvertible && !convertible(
                name.deep_view(),
                species@,
                taxon@,
            ),
        },
{
    let current_name = match common_name_form(name) {
        Some(form) => form,
        None => {
            return Err(NameError::Unconvertible);
        },
    };
    let preferred_name = match common_name_form(&taxon.preferred_common_name) {
        Some(form) => form,
        None => {
            return Err(NameError::Unconvertible);
        },
    };
    if !takes_title_case(species) {
        return Err(NameError::Unconvertible);
    }
    if !takes_sentence_case(taxon.scientific_name.as_str()) {
        return Err(NameError::Unconvertible);
    }
    let shown_species = title_case(species);
    if !takes_sentence_case(shown_species.as_str()) {
        return Err(NameError::Unconvertible);
    }
    let current_species = sentence_case(shown_species.as_str());
    let preferred_species = sentence_case(taxon.scientific_name.as_str());
    let forms = NameForms {
        current_name,
        preferred_name,
        shown_species,
        current_species,
        preferred_species,
    };
    Ok(compare_names(id, &forms))
}

} // verus!
