//! The reconciler: from the critters' current categories and desired groups
//! to a plan of corrective actions.
//!
//! The functions of this file work on names whose keys are already known,
//! so their contracts speak of plain values only.

use crate::ledger::{
    collapse_first, extraneous_first, first_with_id, first_with_key, is_next, leftover,
    lemma_first_with_id, lemma_first_with_key, opening, pool_in_table, reconciled, run, shadowed,
    step, wanted, Ledger, ReconciliationView, Slot, SubjectView, Wish,
};
use crate::plan::{Diagnostic, DiagnosticKind, PlanEntry, ResolveError};
use vstd::prelude::*;

verus! {

/// A named category together with the key of its name.
#[derive(Clone, Debug, PartialEq, Eq)]
pub struct KeyedCategory {
    pub id: i64,
    pub name: String,
    pub key: String,
}

impl DeepView for KeyedCategory {
    type V = Slot;

    open spec fn deep_view(&self) -> Slot {
        Slot { id: self.id, name: self.name@, key: self.key@ }
    }
}

impl View for KeyedCategory {
    type V = Slot;

    open spec fn view(&self) -> Slot {
        self.deep_view()
    }
}

impl KeyedCategory {
    /// A copy of the category.
    pub fn duplicate(&self) -> (out: KeyedCategory)
        ensures
            out@ == self@,
    {
        KeyedCategory { id: self.id, name: self.name.clone(), key: self.key.clone() }
    }
}

/// A desired group together with the key of its name.
#[derive(Clone, Debug, PartialEq, Eq)]
pub struct KeyedGroup {
    /// The name as it is displayed.
    pub name: String,
    /// The key of the name.
    pub key: String,
    /// The group is the fallback for a critter that could not be classified.
    pub gap: bool,
}

impl DeepView for KeyedGroup {
    type V = Wish;

    open spec fn deep_view(&self) -> Wish {
        Wish { name: self.name@, key: self.key@, gap: self.gap }
    }
}

impl View for KeyedGroup {
    type V = Wish;

    open spec fn view(&self) -> Wish {
        self.deep_view()
    }
}

/// A critter as the reconciler reads it: where it is filed, and where it
/// should be or why that is not known.
#[derive(Debug, PartialEq, Eq)]
pub struct Subject {
    pub id: i64,
    pub category: Option<i64>,
    pub desired: Result<KeyedGroup, ResolveError>,
}

impl DeepView for Subject {
    type V = SubjectView;

    open spec fn deep_view(&self) -> SubjectView {
        SubjectView {
            id: self.id,
            category: self.category,
            desired: match self.desired {
                Ok(group) => Ok(group@),
                Err(e) => Err(e),
            },
        }
    }
}

impl View for Subject {
    type V = SubjectView;

    open spec fn view(&self) -> SubjectView {
        self.deep_view()
    }
}

/// What the reconciler decides for one critter.
#[derive(Clone, Debug, PartialEq, Eq)]
pub struct Decision {
    /// The action, if the critter has a desired group.
    pub entry: Option<PlanEntry>,
    /// What is reported about the critter.
    pub notes: Vec<Diagnostic>,
}

/// The outcome of a run.
#[derive(Clone, Debug, PartialEq, Eq)]
pub struct Reconciliation {
    /// One entry for each critter with a desired group, in catalog order.
    pub plan: Vec<PlanEntry>,
    /// What is reported, in catalog order.
    pub diagnostics: Vec<Diagnostic>,
    /// The categories that nothing needs and that no reuse has taken.
    pub extraneous: Vec<KeyedCategory>,
}

impl DeepView for Reconciliation {
    type V = ReconciliationView;

    open spec fn deep_view(&self) -> ReconciliationView {
        ReconciliationView {
            plan: self.plan.deep_view(),
            diagnostics: self.diagnostics@,
            extraneous: self.extraneous.deep_view(),
        }
    }
}

impl View for Reconciliation {
    type V = ReconciliationView;

    open spec fn view(&self) -> ReconciliationView {
        self.deep_view()
    }
}

/// The first position of `table` under `key`.
fn find_key(table: &Vec<KeyedCategory>, key: &String) -> (out: Option<usize>)
    ensures
        match out {
            Some(i) => i < table.len() && first_with_key(table.deep_view(), key@) == Some(i as int),
            None => first_with_key(table.deep_view(), key@) is None,
        },
{
    let mut i: usize = 0;
    while i < table.len()
        invariant
            i <= table.len(),
            forall|j: int| 0 <= j < i ==> (#[trigger] table.deep_view()[j]).key != key@,
        decreases table.len() - i,
    {
        if table[i].key == *key {
            proof {
                lemma_first_with_key(table.deep_view(), key@, i as int);
            }
            return Some(i);
        }
        i = i + 1;
    }
    None
}

/// The first position of `table` with the identifier `id`.
fn find_id(table: &Vec<KeyedCategory>, id: i64) -> (out: Option<usize>)
    ensures
        match out {
            Some(i) => i < table.len() && first_with_id(table.deep_view(), id) == Some(i as int),
            None => first_with_id(table.deep_view(), id) is None,
        },
{
    let mut i: usize = 0;
    while i < table.len()
        invariant
            i <= table.len(),
            forall|j: int| 0 <= j < i ==> (#[trigger] table.deep_view()[j]).id != id,
        decreases table.len() - i,
    {
        if table[i].id == id {
            proof {
                lemma_first_with_id(table.deep_view(), id, i as int);
            }
            return Some(i);
        }
        i = i + 1;
    }
    None
}

/// Tells whether a later category has the key of the one at `i`.
fn is_shadowed(categories: &Vec<KeyedCategory>, i: usize) -> (out: bool)
    requires
        i < categories.len(),
    ensures
        out == shadowed(categories.deep_view(), i as int),
{
    let mut j: usize = i + 1;
    while j < categories.len()
        invariant
            i < j <= categories.len(),
            forall|k: int|
                i < k < j ==> (#[trigger] categories.deep_view()[k]).key
                    != categories.deep_view()[i as int].key,
        decreases categories.len() - j,
    {
        if categories[j].key == categories[i].key {
            assert(categories.deep_view()[j as int].key == categories.deep_view()[i as int].key);
            return true;
        }
        j = j + 1;
    }
    false
}

/// Tells whether some critter desires a group with the key `key`.
fn is_wanted(subjects: &Vec<Subject>, key: &String) -> (out: bool)
    ensures
        out == wanted(subjects.deep_view(), key@),
{
    let mut i: usize = 0;
    while i < subjects.len()
        invariant
            i <= subjects.len(),
            forall|j: int|
                0 <= j < i ==> !((#[trigger] subjects.deep_view()[j]).desired is Ok
                    && subjects.deep_view()[j].desired->Ok_0.key == key@),
        decreases subjects.len() - i,
    {
        let found = match &subjects[i].desired {
            Ok(group) => group.key == *key,
            Err(_) => false,
        };
        if found {
            assert(subjects.deep_view()[i as int].desired is Ok);
            return true;
        }
        i = i + 1;
    }
    false
}

/// The reconciler's state between critters: the table of current
/// categories and the pool of those that may be reused.
pub struct Reconciler {
    table: Vec<KeyedCategory>,
    pool: Vec<usize>,
}

impl View for Reconciler {
    type V = Ledger;

    closed spec fn view(&self) -> Ledger {
        Ledger {
            table: self.table.deep_view(),
            pool: Seq::new(self.pool@.len(), |i: int| self.pool@[i] as int),
        }
    }
}

impl Reconciler {
    /// The pool names positions of the table only.
    pub open spec fn wf(&self) -> bool {
        pool_in_table(self@)
    }

    /// Partitions the categories: those that count go into the table, and
    /// those among them that no critter desires go into the pool.
    pub fn new(categories: &Vec<KeyedCategory>, subjects: &Vec<Subject>) -> (out: Reconciler)
        ensures
            out.wf(),
            out@ == opening(categories.deep_view(), subjects.deep_view()),
    {
        let mut table: Vec<KeyedCategory> = Vec::new();
        let mut i: usize = 0;
        while i < categories.len()
            invariant
                i <= categories.len(),
                table.deep_view() == collapse_first(categories.deep_view(), i as nat),
            decreases categories.len() - i,
        {
            if !is_shadowed(categories, i) {
                table.push(categories[i].duplicate());
            }
            i = i + 1;
        }
        let mut pool: Vec<usize> = Vec::new();
        let mut n: usize = 0;
        while n < table.len()
            invariant
                n <= table.len(),
                Seq::new(pool@.len(), |i: int| pool@[i] as int) == extraneous_first(
                    table.deep_view(),
                    subjects.deep_view(),
                    n as nat,
                ),
                forall|i: int| 0 <= i < pool@.len() ==> #[trigger] pool@[i] < n,
            decreases table.len() - n,
        {
            if !is_wanted(subjects, &table[n].key) {
                pool.push(n);
            }
            n = n + 1;
        }
        Reconciler { table, pool }
    }

    /// The place in the pool of the member that is reused next.
    fn next_member(&self) -> (at: usize)
        requires
            self.wf(),
            self@.pool.len() > 0,
        ensures
            at < self.pool.len(),
            is_next(self@.table, self@.pool, at as int),
    {
        let mut best: usize = 0;
        let mut q: usize = 1;
        while q < self.pool.len()
            invariant
                0 <= best < q <= self.pool.len(),
                pool_in_table(self@),
                forall|r: int|
                    0 <= r < q ==> self@.table[self@.pool[best as int]].id
                        <= self@.table[#[trigger] self@.pool[r]].id,
                forall|r: int|
                    0 <= r < best ==> self@.table[self@.pool[best as int]].id
                        < self@.table[#[trigger] self@.pool[r]].id,
            decreases self.pool.len() - q,
        {
            assert(0 <= self@.pool[q as int] < self@.table.len());
            assert(0 <= self@.pool[best as int] < self@.table.len());
            if self.table[self.pool[q]].id < self.table[self.pool[best]].id {
                best = q;
            }
            q = q + 1;
        }
        best
    }

    /// Decides what is to be done for one critter, and records a reuse at
    /// once, so that the next critter finds the renamed category.
    pub fn decide(&mut self, subject: &Subject) -> (out: Decision)
        requires
            old(self).wf(),
        ensures
            final(self).wf(),
            final(self)@ == step(old(self)@, subject@).ledger,
            out.entry.deep_view() == step(old(self)@, subject@).entry,
            out.notes@ == step(old(self)@, subject@).notes,
    {
        let mut notes: Vec<Diagnostic> = Vec::new();
        match &subject.desired {
            Err(e) => {
                notes.push(Diagnostic { entity: subject.id, kind: DiagnosticKind::Unresolved(*e) });
                Decision { entry: None, notes }
            },
            Ok(group) => {
                if group.gap {
                    notes.push(
                        Diagnostic { entity: subject.id, kind: DiagnosticKind::ClassificationGap },
                    );
                }
                let current = match subject.category {
                    Some(id) => find_id(&self.table, id),
                    None => None,
                };
                let desired = find_key(&self.table, &group.key);
                let entry = match (current, desired) {
                    (Some(c), Some(d)) => {
                        if self.table[c].id == self.table[d].id {
                            PlanEntry::NoOp
                        } else {
                            PlanEntry::Reassign {
                                entity: subject.id,
                                from_category: Some(self.table[c].id),
                                to_category: self.table[d].id,
                            }
                        }
                    },
                    (None, Some(d)) => PlanEntry::Reassign {
                        entity: subject.id,
                        from_category: None,
                        to_category: self.table[d].id,
                    },
                    (Some(_), None) => {
                        if self.pool.len() == 0 {
                            notes.push(
                                Diagnostic {
                                    entity: subject.id,
                                    kind: DiagnosticKind::PoolExhausted,
                                },
                            );
                            PlanEntry::CreateNewCategory {
                                entity: subject.id,
                                desired_name: group.name.clone(),
                            }
                        } else {
                            let at = self.next_member();
                            let p = self.pool[at];
                            let id = self.table[p].id;
                            let old_name = self.table[p].name.clone();
                            self.table.set(
                                p,
                                KeyedCategory {
                                    id,
                                    name: group.name.clone(),
                                    key: group.key.clone(),
                                },
                            );
                            self.pool.remove(at);
                            assert(self@.table =~= old(self)@.table.update(
                                p as int,
                                Slot { id, name: group.name@, key: group.key@ },
                            ));
                            assert(self@.pool =~= old(self)@.pool.remove(at as int));
                            PlanEntry::RenameAndReuse {
                                entity: subject.id,
                                reused_category_id: id,
                                old_name,
                                new_name: group.name.clone(),
                            }
                        }
                    },
                    (None, None) => PlanEntry::CreateNewCategory {
                        entity: subject.id,
                        desired_name: group.name.clone(),
                    },
                };
                Decision { entry: Some(entry), notes }
            },
        }
    }

    /// The categories that are still in the pool, in table order.
    pub fn extraneous(&self) -> (out: Vec<KeyedCategory>)
        requires
            self.wf(),
        ensures
            out.deep_view() == leftover(self@),
    {
        let mut out: Vec<KeyedCategory> = Vec::new();
        let mut i: usize = 0;
        while i < self.pool.len()
            invariant
                i <= self.pool.len(),
                pool_in_table(self@),
                out.deep_view() == leftover(self@).take(i as int),
            decreases self.pool.len() - i,
        {
            assert(0 <= self@.pool[i as int] < self@.table.len());
            let p = self.pool[i];
            let ghost before = out.deep_view();
            out.push(self.table[p].duplicate());
            assert(out.deep_view() =~= before.push(self@.table[p as int]));
            i = i + 1;
        }
        out
    }
}

/// Runs the reconciler over the critters in the order given. The result is
/// what `reconciled` defines.
pub fn reconcile_keyed(subjects: &Vec<Subject>, categories: &Vec<KeyedCategory>) -> (out:
    Reconciliation)
    ensures
        out@ == reconciled(subjects.deep_view(), categories.deep_view()),
{
    let mut state = Reconciler::new(categories, subjects);
    let mut plan: Vec<PlanEntry> = Vec::new();
    let mut diagnostics: Vec<Diagnostic> = Vec::new();
    let ghost start = state@;
    let mut i: usize = 0;
    while i < subjects.len()
        invariant
            i <= subjects.len(),
            state.wf(),
            state@ == run(start, subjects.deep_view(), i as nat).ledger,
            plan.deep_view() == run(start, subjects.deep_view(), i as nat).plan,
            diagnostics@ == run(start, subjects.deep_view(), i as nat).diagnostics,
        decreases subjects.len() - i,
    {
        let ghost before = run(start, subjects.deep_view(), i as nat);
        let decision = state.decide(&subjects[i]);
        let Decision { entry, notes } = decision;
        match entry {
            Some(e) => {
                plan.push(e);
            },
            None => {},
        }
        let mut k: usize = 0;
        while k < notes.len()
            invariant
                k <= notes.len(),
                diagnostics@ == before.diagnostics + notes@.take(k as int),
            decreases notes.len() - k,
        {
            diagnostics.push(notes[k]);
            k = k + 1;
        }
        i = i + 1;
    }
    let extraneous = state.extraneous();
    Reconciliation { plan, diagnostics, extraneous }
}

} // verus!
