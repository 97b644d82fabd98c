//! What a reconciliation run hands back: plan entries for the executor and
//! diagnostics for the operator.

use vstd::prelude::*;

verus! {

/// Why the taxonomy gave no record for a species.
#[derive(Clone, Copy, Debug, PartialEq, Eq, Structural)]
pub enum LookupError {
    /// The service knows no taxon of that name.
    NotFound,
    /// The service failed or timed out.
    Service,
}

/// Why a critter has no desired group.
#[derive(Clone, Copy, Debug, PartialEq, Eq, Structural)]
pub enum ResolveError {
    /// The critter names no species.
    MissingSpecies,
    /// The species was never looked up.
    NotResolved,
    /// The lookup of the species failed.
    Lookup(LookupError),
}

/// What is reported about a critter.
#[derive(Clone, Copy, Debug, PartialEq, Eq, Structural)]
pub enum DiagnosticKind {
    /// No desired group: the critter is left out of the plan.
    Unresolved(ResolveError),
    /// No group could be derived: the critter is planned under the fallback
    /// group.
    ClassificationGap,
    /// A category was to be reused and none was left: a new one is asked
    /// for instead.
    PoolExhausted,
}

/// One line of the diagnostics report.
#[derive(Clone, Copy, Debug, PartialEq, Eq, Structural)]
pub struct Diagnostic {
    /// The critter concerned.
    pub entity: i64,
    /// What is reported.
    pub kind: DiagnosticKind,
}

/// One corrective action.
#[derive(Clone, Debug, PartialEq, Eq)]
pub enum PlanEntry {
    /// The critter is filed where it belongs.
    NoOp,
    /// File the critter under another category that exists.
    Reassign { entity: i64, from_category: Option<i64>, to_category: i64 },
    /// Rename a category that nothing needs, and file the critter under it.
    RenameAndReuse { entity: i64, reused_category_id: i64, old_name: String, new_name: String },
    /// A category of this name has to be created for the critter.
    CreateNewCategory { entity: i64, desired_name: String },
}

/// A plan entry as contracts see it.
pub ghost enum PlanEntryView {
    NoOp,
    Reassign { entity: i64, from_category: Option<i64>, to_category: i64 },
    RenameAndReuse {
        entity: i64,
        reused_category_id: i64,
        old_name: Seq<char>,
        new_name: Seq<char>,
    },
    CreateNewCategory { entity: i64, desired_name: Seq<char> },
}

impl DeepView for PlanEntry {
    type V = PlanEntryView;

    open spec fn deep_view(&self) -> PlanEntryView {
        match self {
            PlanEntry::NoOp => PlanEntryView::NoOp,
            PlanEntry::Reassign { entity, from_category, to_category } => PlanEntryView::Reassign {
                entity: *entity,
                from_category: *from_category,
                to_category: *to_category,
            },
            PlanEntry::RenameAndReuse {
                entity,
                reused_category_id,
                old_name,
                new_name,
            } => PlanEntryView::RenameAndReuse {
                entity: *entity,
                reused_category_id: *reused_category_id,
                old_name: old_name@,
                new_name: new_name@,
            },
            PlanEntry::CreateNewCategory { entity, desired_name } => {
                PlanEntryView::CreateNewCategory { entity: *entity, desired_name: desired_name@ }
            },
        }
    }
}

impl View for PlanEntry {
    type V = PlanEntryView;

    open spec fn view(&self) -> PlanEntryView {
        self.deep_view()
    }
}

impl PlanEntry {
    /// The critter that the entry acts on; `NoOp` acts on none.
    pub fn entity(&self) -> (out: Option<i64>)
        ensures
            out == entity_of(self@),
    {
        match self {
            PlanEntry::NoOp => None,
            PlanEntry::Reassign { entity, .. } => Some(*entity),
            PlanEntry::RenameAndReuse { entity, .. } => Some(*entity),
            PlanEntry::CreateNewCategory { entity, .. } => Some(*entity),
        }
    }
}

/// The critter that an entry acts on.
pub open spec fn entity_of(entry: PlanEntryView) -> Option<i64> {
    match entry {
        PlanEntryView::NoOp => None,
        PlanEntryView::Reassign { entity, .. } => Some(entity),
        PlanEntryView::RenameAndReuse { entity, .. } => Some(entity),
        PlanEntryView::CreateNewCategory { entity, .. } => Some(entity),
    }
}

} // verus!
