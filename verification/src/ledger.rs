//! The mathematical model of a reconciliation run.
//!
//! A run is a fold over the critters, in catalog order, that carries a
//! ledger: the table of current categories, each under its key, and the pool
//! of categories that nothing needs. The contracts of the executable
//! reconciler are stated over the functions of this file.

use crate::plan::{Diagnostic, DiagnosticKind, PlanEntryView, ResolveError};
use vstd::prelude::*;

verus! {

/// A named category and the key of its name.
pub ghost struct Slot {
    pub id: i64,
    pub name: Seq<char>,
    pub key: Seq<char>,
}

/// A desired group: its name as displayed, the key of that name, and
/// whether it is the fallback for a critter that could not be classified.
pub ghost struct Wish {
    pub name: Seq<char>,
    pub key: Seq<char>,
    pub gap: bool,
}

/// A critter as the reconciler reads it.
pub ghost struct SubjectView {
    pub id: i64,
    pub category: Option<i64>,
    pub desired: Result<Wish, ResolveError>,
}

/// The state that a run carries from critter to critter.
pub ghost struct Ledger {
    /// The current categories. A reuse renames a slot in place.
    pub table: Seq<Slot>,
    /// The positions in `table` of the categories that may be reused.
    pub pool: Seq<int>,
}

/// What one critter changes and yields.
pub ghost struct Step {
    pub ledger: Ledger,
    pub entry: Option<PlanEntryView>,
    pub notes: Seq<Diagnostic>,
}

/// What the critters processed so far have changed and yielded.
pub ghost struct Run {
    pub ledger: Ledger,
    pub plan: Seq<PlanEntryView>,
    pub diagnostics: Seq<Diagnostic>,
}

/// The result of a run.
pub ghost struct ReconciliationView {
    pub plan: Seq<PlanEntryView>,
    pub diagnostics: Seq<Diagnostic>,
    pub extraneous: Seq<Slot>,
}

/// `i` is the first position of `table` whose slot has the key `key`.
pub open spec fn has_key_at(table: Seq<Slot>, key: Seq<char>, i: int) -> bool {
    &&& 0 <= i < table.len()
    &&& table[i].key == key
    &&& forall|j: int| 0 <= j < i ==> (#[trigger] table[j]).key != key
}

/// The first position of `table` under the key `key`.
pub open spec fn first_with_key(table: Seq<Slot>, key: Seq<char>) -> Option<int> {
    if exists|i: int| has_key_at(table, key, i) {
        Some(choose|i: int| has_key_at(table, key, i))
    } else {
        None
    }
}

/// `i` is the first position of `table` whose slot has the identifier `id`.
pub open spec fn has_id_at(table: Seq<Slot>, id: i64, i: int) -> bool {
    &&& 0 <= i < table.len()
    &&& table[i].id == id
    &&& forall|j: int| 0 <= j < i ==> (#[trigger] table[j]).id != id
}

/// The first position of `table` with the identifier `id`.
pub open spec fn first_with_id(table: Seq<Slot>, id: i64) -> Option<int> {
    if exists|i: int| has_id_at(table, id, i) {
        Some(choose|i: int| has_id_at(table, id, i))
    } else {
        None
    }
}

/// The position of the category that a critter is filed under, if the table
/// holds it.
pub open spec fn current_slot(table: Seq<Slot>, category: Option<i64>) -> Option<int> {
    match category {
        Some(id) => first_with_id(table, id),
        None => None,
    }
}

/// `at` is the place in `pool` of the member that is reused next: the one
/// with the least identifier, and among equals the one that comes first.
pub open spec fn is_next(table: Seq<Slot>, pool: Seq<int>, at: int) -> bool {
    &&& 0 <= at < pool.len()
    &&& forall|q: int| 0 <= q < pool.len() ==> table[pool[at]].id <= table[#[trigger] pool[q]].id
    &&& forall|q: int| 0 <= q < at ==> table[pool[at]].id < table[#[trigger] pool[q]].id
}

/// The place in `pool` of the member that is reused next.
pub open spec fn next_in_pool(table: Seq<Slot>, pool: Seq<int>) -> int {
    choose|at: int| is_next(table, pool, at)
}

/// The report on a critter that is planned under the fallback group.
pub open spec fn gap_notes(entity: i64, wish: Wish) -> Seq<Diagnostic> {
    if wish.gap {
        seq![Diagnostic { entity, kind: DiagnosticKind::ClassificationGap }]
    } else {
        Seq::empty()
    }
}

/// The decision for one critter.
///
/// | filed under        | desired category | action                         |
/// |--------------------|------------------|--------------------------------|
/// | the desired one    | exists           | `NoOp`                         |
/// | another            | exists           | `Reassign` from it             |
/// | nothing            | exists           | `Reassign` from nothing        |
/// | a category         | missing          | `RenameAndReuse`, or, with an  |
/// |                    |                  | empty pool, `CreateNewCategory`|
/// | nothing            | missing          | `CreateNewCategory`            |
///
/// A reuse takes the pool member with the least identifier, renames its slot
/// to the desired name at once, and removes it from the pool.
pub open spec fn step(ledger: Ledger, subject: SubjectView) -> Step {
    match subject.desired {
        Err(e) => Step {
            ledger,
            entry: None,
            notes: seq![Diagnostic { entity: subject.id, kind: DiagnosticKind::Unresolved(e) }],
        },
        Ok(wish) => {
            let table = ledger.table;
            let gap = gap_notes(subject.id, wish);
            match (current_slot(table, subject.category), first_with_key(table, wish.key)) {
                (Some(c), Some(d)) => Step {
                    ledger,
                    entry: Some(
                        if table[c].id == table[d].id {
                            PlanEntryView::NoOp
                        } else {
                            PlanEntryView::Reassign {
                                entity: subject.id,
                                from_category: Some(table[c].id),
                                to_category: table[d].id,
                            }
                        },
                    ),
                    notes: gap,
                },
                (None, Some(d)) => Step {
                    ledger,
                    entry: Some(
                        PlanEntryView::Reassign {
                            entity: subject.id,
                            from_category: None,
                            to_category: table[d].id,
                        },
                    ),
                    notes: gap,
                },
                (Some(c), None) => {
                    if ledger.pool.len() == 0 {
                        Step {
                            ledger,
                            entry: Some(
                                PlanEntryView::CreateNewCategory {
                                    entity: subject.id,
                                    desired_name: wish.name,
                                },
                            ),
                            notes: gap.push(
                                Diagnostic {
                                    entity: subject.id,
                                    kind: DiagnosticKind::PoolExhausted,
                                },
                            ),
                        }
                    } else {
                        let at = next_in_pool(table, ledger.pool);
                        let p = ledger.pool[at];
                        Step {
                            ledger: Ledger {
                                table: table.update(
                                    p,
                                    Slot { id: table[p].id, name: wish.name, key: wish.key },
                                ),
                                pool: ledger.pool.remove(at),
                            },
                            entry: Some(
                                PlanEntryView::RenameAndReuse {
                                    entity: subject.id,
                                    reused_category_id: table[p].id,
                                    old_name: table[p].name,
                                    new_name: wish.name,
                                },
                            ),
                            notes: gap,
                        }
                    }
                },
                (None, None) => Step {
                    ledger,
                    entry: Some(
                        PlanEntryView::CreateNewCategory {
                            entity: subject.id,
                            desired_name: wish.name,
                        },
                    ),
                    notes: gap,
                },
            }
        },
    }
}

/// The plan with what a step yielded added at its end.
pub open spec fn with_entry(plan: Seq<PlanEntryView>, entry: Option<PlanEntryView>) -> Seq<
    PlanEntryView,
> {
    match entry {
        Some(e) => plan.push(e),
        None => plan,
    }
}

/// The run over the first `n` critters of `subjects`, from the ledger
/// `start`.
pub open spec fn run(start: Ledger, subjects: Seq<SubjectView>, n: nat) -> Run
    decreases n,
{
    if n == 0 {
        Run { ledger: start, plan: Seq::empty(), diagnostics: Seq::empty() }
    } else {
        let before = run(start, subjects, (n - 1) as nat);
        let s = step(before.ledger, subjects[n - 1]);
        Run {
            ledger: s.ledger,
            plan: with_entry(before.plan, s.entry),
            diagnostics: before.diagnostics + s.notes,
        }
    }
}

/// Some later category has the key of the one at `i`, which therefore
/// yields to it: of the categories under one key the last one counts.
pub open spec fn shadowed(categories: Seq<Slot>, i: int) -> bool {
    exists|j: int| i < j < categories.len() && (#[trigger] categories[j]).key == categories[i].key
}

/// Those of the first `n` categories that count, in catalog order.
pub open spec fn collapse_first(categories: Seq<Slot>, n: nat) -> Seq<Slot>
    decreases n,
{
    if n == 0 {
        Seq::empty()
    } else {
        let head = collapse_first(categories, (n - 1) as nat);
        if shadowed(categories, n - 1) {
            head
        } else {
            head.push(categories[n - 1])
        }
    }
}

/// The categories that count: one per key.
pub open spec fn collapse(categories: Seq<Slot>) -> Seq<Slot> {
    collapse_first(categories, categories.len())
}

/// Some critter desires a group with the key `key`.
pub open spec fn wanted(subjects: Seq<SubjectView>, key: Seq<char>) -> bool {
    exists|i: int|
        0 <= i < subjects.len() && (#[trigger] subjects[i]).desired is Ok
            && subjects[i].desired->Ok_0.key == key
}

/// The positions, among the first `n` of `table`, of the categories whose
/// key no critter desires, in rising order.
pub open spec fn extraneous_first(table: Seq<Slot>, subjects: Seq<SubjectView>, n: nat) -> Seq<
    int,
>
    decreases n,
{
    if n == 0 {
        Seq::empty()
    } else {
        let head = extraneous_first(table, subjects, (n - 1) as nat);
        if wanted(subjects, table[n - 1].key) {
            head
        } else {
            head.push(n - 1)
        }
    }
}

/// The ledger at the start of a run: the categories that count, and as pool
/// those among them that no critter desires.
pub open spec fn opening(categories: Seq<Slot>, subjects: Seq<SubjectView>) -> Ledger {
    let table = collapse(categories);
    Ledger { table, pool: extraneous_first(table, subjects, table.len()) }
}

/// The categories still in the pool.
pub open spec fn leftover(ledger: Ledger) -> Seq<Slot> {
    Seq::new(ledger.pool.len(), |i: int| ledger.table[ledger.pool[i]])
}

/// The whole run: the plan, the diagnostics, and the categories that are
/// left in the pool when every critter has been processed.
pub open spec fn reconciled(
    subjects: Seq<SubjectView>,
    categories: Seq<Slot>,
) -> ReconciliationView {
    let end = run(opening(categories, subjects), subjects, subjects.len());
    ReconciliationView {
        plan: end.plan,
        diagnostics: end.diagnostics,
        extraneous: leftover(end.ledger),
    }
}

/// Every member of the pool is a position of the table.
pub open spec fn pool_in_table(ledger: Ledger) -> bool {
    forall|i: int|
        0 <= i < ledger.pool.len() ==> 0 <= #[trigger] ledger.pool[i] < ledger.table.len()
}

/// A position that holds the key is the first one if none before it does.
pub proof fn lemma_first_with_key(table: Seq<Slot>, key: Seq<char>, i: int)
    requires
        has_key_at(table, key, i),
    ensures
        first_with_key(table, key) == Some(i),
{
}

/// A position that holds the identifier is the first one if none before it
/// does.
pub proof fn lemma_first_with_id(table: Seq<Slot>, id: i64, i: int)
    requires
        has_id_at(table, id, i),
    ensures
        first_with_id(table, id) == Some(i),
{
}

} // verus!
