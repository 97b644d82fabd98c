//! What holds of every reconciliation run, proved over the model of
//! `ledger`.

use crate::ledger::{
    collapse, collapse_first, current_slot, extraneous_first, first_with_id, first_with_key,
    has_id_at, has_key_at, is_next, lemma_first_with_id, lemma_first_with_key, next_in_pool,
    opening, pool_in_table, reconciled, run, shadowed, step, wanted, Ledger, Slot, SubjectView,
};
use crate::plan::{entity_of, Diagnostic, DiagnosticKind, PlanEntryView};
use vstd::prelude::*;

verus! {

/// The ledger is in order: the pool names distinct positions of the table,
/// no two slots share a key, and no critter desires a category of the pool.
pub open spec fn sound(ledger: Ledger, subjects: Seq<SubjectView>) -> bool {
    &&& pool_in_table(ledger)
    &&& forall|i: int, j: int|
        #![trigger ledger.pool[i], ledger.pool[j]]
        0 <= i < j < ledger.pool.len() ==> ledger.pool[i] != ledger.pool[j]
    &&& forall|i: int, j: int|
        #![trigger ledger.table[i], ledger.table[j]]
        0 <= i < j < ledger.table.len() ==> ledger.table[i].key != ledger.table[j].key
    &&& forall|i: int|
        0 <= i < ledger.pool.len() ==> !wanted(
            subjects,
            ledger.table[#[trigger] ledger.pool[i]].key,
        )
}

/// The two tables hold the same categories at the same positions: a run
/// renames slots and never moves, adds or removes one.
pub open spec fn same_ids(a: Seq<Slot>, b: Seq<Slot>) -> bool {
    &&& a.len() == b.len()
    &&& forall|p: int| 0 <= p < a.len() ==> (#[trigger] a[p]).id == b[p].id
}

/// The number of `RenameAndReuse` entries of a plan.
pub open spec fn reuses(plan: Seq<PlanEntryView>) -> nat
    decreases plan.len(),
{
    if plan.len() == 0 {
        0
    } else {
        reuses(plan.drop_last()) + if plan.last() is RenameAndReuse {
            1nat
        } else {
            0nat
        }
    }
}

/// The critter is filed under the category that bears its desired group's
/// name.
pub open spec fn settled(table: Seq<Slot>, subject: SubjectView) -> bool {
    subject.desired matches Ok(wish) ==> {
        &&& current_slot(table, subject.category) matches Some(c)
        &&& first_with_key(table, wish.key) matches Some(d)
        &&& table[c].id == table[d].id
    }
}

/// The identifier of the category that a critter is filed under, if the
/// table holds that category.
pub open spec fn filed_under(table: Seq<Slot>, category: Option<i64>) -> Option<i64> {
    match current_slot(table, category) {
        Some(c) => Some(table[c].id),
        None => None,
    }
}

/// The place in the plan where the entry of the critter at `j` stands, if it
/// has one: after the entries of the critters before it.
pub open spec fn entry_position(start: Ledger, subjects: Seq<SubjectView>, j: int) -> int {
    run(start, subjects, j as nat).plan.len() as int
}

/// The entry that the run yields for the critter at `j`.
pub open spec fn entry_at(start: Ledger, subjects: Seq<SubjectView>, j: int) -> Option<
    PlanEntryView,
> {
    step(run(start, subjects, j as nat).ledger, subjects[j]).entry
}

proof fn lemma_least_upto(table: Seq<Slot>, pool: Seq<int>, n: nat) -> (at: int)
    requires
        1 <= n <= pool.len(),
    ensures
        0 <= at < n,
        forall|q: int| 0 <= q < n ==> table[pool[at]].id <= table[#[trigger] pool[q]].id,
        forall|q: int| 0 <= q < at ==> table[pool[at]].id < table[#[trigger] pool[q]].id,
    decreases n,
{
    if n == 1 {
        0
    } else {
        let before = lemma_least_upto(table, pool, (n - 1) as nat);
        if table[pool[n - 1]].id < table[pool[before]].id {
            n - 1
        } else {
            before
        }
    }
}

/// A pool that is not empty has a member that is reused next.
pub proof fn lemma_next_exists(table: Seq<Slot>, pool: Seq<int>)
    requires
        pool.len() > 0,
    ensures
        is_next(table, pool, next_in_pool(table, pool)),
{
    let at = lemma_least_upto(table, pool, pool.len());
    assert(is_next(table, pool, at));
}

/// A key that some slot has is found, at that slot or before it.
pub proof fn lemma_key_present(table: Seq<Slot>, key: Seq<char>, j: int)
    requires
        0 <= j < table.len(),
        table[j].key == key,
    ensures
        first_with_key(table, key) matches Some(i) && i <= j && has_key_at(table, key, i),
    decreases j,
{
    if exists|k: int| 0 <= k < j && (#[trigger] table[k]).key == key {
        let k = choose|k: int| 0 <= k < j && (#[trigger] table[k]).key == key;
        lemma_key_present(table, key, k);
    } else {
        lemma_first_with_key(table, key, j);
    }
}

/// An identifier that some slot has is found, at that slot or before it.
pub proof fn lemma_id_present(table: Seq<Slot>, id: i64, j: int)
    requires
        0 <= j < table.len(),
        table[j].id == id,
    ensures
        first_with_id(table, id) matches Some(i) && i <= j && has_id_at(table, id, i),
    decreases j,
{
    if exists|k: int| 0 <= k < j && (#[trigger] table[k]).id == id {
        let k = choose|k: int| 0 <= k < j && (#[trigger] table[k]).id == id;
        lemma_id_present(table, id, k);
    } else {
        lemma_first_with_id(table, id, j);
    }
}

/// What is found under a key is the first slot with it.
pub proof fn lemma_found_key(table: Seq<Slot>, key: Seq<char>)
    ensures
        first_with_key(table, key) matches Some(i) ==> has_key_at(table, key, i),
        first_with_key(table, key) is None ==> forall|j: int|
            0 <= j < table.len() ==> (#[trigger] table[j]).key != key,
{
    if first_with_key(table, key) is None {
        assert forall|j: int| 0 <= j < table.len() implies (#[trigger] table[j]).key != key by {
            if table[j].key == key {
                lemma_key_present(table, key, j);
            }
        }
    }
}

/// What is found under an identifier is the first slot with it.
pub proof fn lemma_found_id(table: Seq<Slot>, id: i64)
    ensures
        first_with_id(table, id) matches Some(i) ==> has_id_at(table, id, i),
        first_with_id(table, id) is None ==> forall|j: int|
            0 <= j < table.len() ==> (#[trigger] table[j]).id != id,
{
    if first_with_id(table, id) is None {
        assert forall|j: int| 0 <= j < table.len() implies (#[trigger] table[j]).id != id by {
            if table[j].id == id {
                lemma_id_present(table, id, j);
            }
        }
    }
}

/// Tables with the same identifiers find the same slot for an identifier.
pub proof fn lemma_same_ids_find(a: Seq<Slot>, b: Seq<Slot>, id: i64)
    requires
        same_ids(a, b),
    ensures
        first_with_id(a, id) == first_with_id(b, id),
{
    lemma_found_id(a, id);
    match first_with_id(a, id) {
        Some(i) => {
            assert(has_id_at(b, id, i)) by {
                assert forall|j: int| 0 <= j < i implies (#[trigger] b[j]).id != id by {
                    assert(a[j].id == b[j].id);
                }
            }
        },
        None => {
            match first_with_id(b, id) {
                Some(i) => {
                    assert(a[i].id == b[i].id);
                },
                None => {},
            }
        },
    }
}

/// Every slot that counts stems from a category that no later one shadows,
/// and no two of them share a key.
proof fn lemma_collapse_first(categories: Seq<Slot>, n: nat)
    requires
        n <= categories.len(),
    ensures
        forall|a: int|
            0 <= a < collapse_first(categories, n).len() ==> exists|i: int|
                0 <= i < n && !shadowed(categories, i) && #[trigger] collapse_first(
                    categories,
                    n,
                )[a] == categories[i],
        forall|a: int, b: int|
            #![trigger collapse_first(categories, n)[a], collapse_first(categories, n)[b]]
            0 <= a < b < collapse_first(categories, n).len() ==> collapse_first(
                categories,
                n,
            )[a].key != collapse_first(categories, n)[b].key,
    decreases n,
{
    if n > 0 {
        lemma_collapse_first(categories, (n - 1) as nat);
        let head = collapse_first(categories, (n - 1) as nat);
        let all = collapse_first(categories, n);
        assert(all.len() >= head.len());
        if !shadowed(categories, n - 1) {
            assert forall|a: int| 0 <= a < all.len() implies exists|i: int|
                0 <= i < n && !shadowed(categories, i) && #[trigger] all[a] == categories[i] by {}
            assert forall|a: int, b: int|
                #![trigger all[a], all[b]]
                0 <= a < b < all.len() implies all[a].key != all[b].key by {}
        } else {
            assert forall|a: int| 0 <= a < all.len() implies exists|i: int|
                0 <= i < n && !shadowed(categories, i) && #[trigger] all[a] == categories[i] by {}
        }
    }
}

/// The positions that `extraneous_first` lists rise, lie below `n`, and
/// name slots that no critter desires.
proof fn lemma_extraneous_first(table: Seq<Slot>, subjects: Seq<SubjectView>, n: nat)
    requires
        n <= table.len(),
    ensures
        forall|a: int|
            0 <= a < extraneous_first(table, subjects, n).len() ==> 0 <= (
            #[trigger] extraneous_first(table, subjects, n)[a]) < n && !wanted(
                subjects,
                table[extraneous_first(table, subjects, n)[a]].key,
            ),
        forall|a: int, b: int|
            #![trigger
                extraneous_first(table, subjects, n)[a],
                extraneous_first(table, subjects, n)[b]]
            0 <= a < b < extraneous_first(table, subjects, n).len() ==> extraneous_first(
                table,
                subjects,
                n,
            )[a] < extraneous_first(table, subjects, n)[b],
    decreases n,
{
    if n > 0 {
        lemma_extraneous_first(table, subjects, (n - 1) as nat);
        let head = extraneous_first(table, subjects, (n - 1) as nat);
        let all = extraneous_first(table, subjects, n);
        assert(all.len() >= head.len());
        if !wanted(subjects, table[n - 1].key) {
            assert forall|a: int| 0 <= a < all.len() implies 0 <= (#[trigger] all[a]) < n
                && !wanted(subjects, table[all[a]].key) by {}
            assert forall|a: int, b: int|
                #![trigger all[a], all[b]]
                0 <= a < b < all.len() implies all[a] < all[b] by {}
        }
    }
}

/// A run starts from a ledger that is in order.
pub proof fn lemma_opening_sound(categories: Seq<Slot>, subjects: Seq<SubjectView>)
    ensures
        sound(opening(categories, subjects), subjects),
{
    let table = collapse(categories);
    lemma_collapse_first(categories, categories.len());
    lemma_extraneous_first(table, subjects, table.len());
}

/// A step keeps the ledger in order and every category at its position.
pub proof fn lemma_step_sound(ledger: Ledger, subjects: Seq<SubjectView>, k: int)
    requires
        sound(ledger, subjects),
        0 <= k < subjects.len(),
    ensures
        sound(step(ledger, subjects[k]).ledger, subjects),
        same_ids(ledger.table, step(ledger, subjects[k]).ledger.table),
{
    let subject = subjects[k];
    let after = step(ledger, subject).ledger;
    if after != ledger {
        let wish = subject.desired->Ok_0;
        let table = ledger.table;
        let pool = ledger.pool;
        lemma_next_exists(table, pool);
        lemma_found_key(table, wish.key);
        let at = next_in_pool(table, pool);
        let p = pool[at];
        assert forall|i: int| 0 <= i < after.pool.len() implies 0 <= #[trigger] after.pool[i]
            < after.table.len() && after.pool[i] != p && !wanted(
            subjects,
            after.table[after.pool[i]].key,
        ) by {}
        assert forall|i: int, j: int|
            #![trigger after.pool[i], after.pool[j]]
            0 <= i < j < after.pool.len() implies after.pool[i] != after.pool[j] by {}
        assert forall|i: int, j: int|
            #![trigger after.table[i], after.table[j]]
            0 <= i < j < after.table.len() implies after.table[i].key != after.table[j].key by {}
    }
}

/// A run keeps the ledger in order and every category at its position.
pub proof fn lemma_run_sound(start: Ledger, subjects: Seq<SubjectView>, n: nat)
    requires
        sound(start, subjects),
        n <= subjects.len(),
    ensures
        sound(run(start, subjects, n).ledger, subjects),
        same_ids(start.table, run(start, subjects, n).ledger.table),
    decreases n,
{
    if n > 0 {
        lemma_run_sound(start, subjects, (n - 1) as nat);
        lemma_step_sound(run(start, subjects, (n - 1) as nat).ledger, subjects, n - 1);
    }
}

/// Each reuse takes one category out of the pool, and nothing else changes
/// the pool.
pub proof fn lemma_run_conserves(start: Ledger, subjects: Seq<SubjectView>, n: nat)
    ensures
        start.pool.len() == reuses(run(start, subjects, n).plan) + run(
            start,
            subjects,
            n,
        ).ledger.pool.len(),
    decreases n,
{
    if n > 0 {
        lemma_run_conserves(start, subjects, (n - 1) as nat);
        let before = run(start, subjects, (n - 1) as nat);
        let s = step(before.ledger, subjects[n - 1]);
        let after = run(start, subjects, n);
        match s.entry {
            Some(e) => {
                assert(after.plan.drop_last() =~= before.plan);
                if e is RenameAndReuse {
                    lemma_next_exists(before.ledger.table, before.ledger.pool);
                }
            },
            None => {},
        }
    }
}

/// Pool conservation: the categories that a run starts with in its pool are
/// those that it reuses and those that it reports as extraneous.
pub proof fn lemma_pool_conservation(subjects: Seq<SubjectView>, categories: Seq<Slot>)
    ensures
        opening(categories, subjects).pool.len() == reuses(reconciled(subjects, categories).plan)
            + reconciled(subjects, categories).extraneous.len(),
{
    lemma_run_conserves(opening(categories, subjects), subjects, subjects.len());
}

/// No two slots share an identifier.
pub open spec fn distinct_ids(table: Seq<Slot>) -> bool {
    forall|i: int, j: int|
        #![trigger table[i], table[j]]
        0 <= i < j < table.len() ==> table[i].id != table[j].id
}

/// The category with the identifier `id` stands in the pool `before` and
/// not in the pool `after`: a reuse has taken it.
pub open spec fn taken(table: Seq<Slot>, before: Seq<int>, after: Seq<int>, id: i64) -> bool {
    exists|p: int|
        0 <= p < table.len() && (#[trigger] table[p]).id == id && before.contains(p)
            && !after.contains(p)
}

/// What the reuses of a run take: each takes a category of the pool that
/// the run started with, which is then no longer in the pool, and no two take
/// the same.
proof fn lemma_reuses_apart(start: Ledger, subjects: Seq<SubjectView>, n: nat)
    requires
        sound(start, subjects),
        distinct_ids(start.table),
        n <= subjects.len(),
    ensures
        forall|q: int|
            0 <= q < run(start, subjects, n).ledger.pool.len() ==> start.pool.contains(
                #[trigger] run(start, subjects, n).ledger.pool[q],
            ),
        forall|k: int|
            0 <= k < run(start, subjects, n).plan.len() && (#[trigger] run(
                start,
                subjects,
                n,
            ).plan[k]) is RenameAndReuse ==> taken(
                start.table,
                start.pool,
                run(start, subjects, n).ledger.pool,
                run(start, subjects, n).plan[k]->reused_category_id,
            ),
        forall|k: int, l: int|
            #![trigger run(start, subjects, n).plan[k], run(start, subjects, n).plan[l]]
            0 <= k < l < run(start, subjects, n).plan.len() && run(start, subjects, n).plan[k]
                is RenameAndReuse && run(start, subjects, n).plan[l] is RenameAndReuse ==> run(
                start,
                subjects,
                n,
            ).plan[k]->reused_category_id != run(start, subjects, n).plan[l]->reused_category_id,
    decreases n,
{
    if n > 0 {
        lemma_reuses_apart(start, subjects, (n - 1) as nat);
        lemma_run_sound(start, subjects, (n - 1) as nat);
        let before = run(start, subjects, (n - 1) as nat);
        let after = run(start, subjects, n);
        let s = step(before.ledger, subjects[n - 1]);
        if s.entry is Some && s.entry->Some_0 is RenameAndReuse {
            lemma_next_exists(before.ledger.table, before.ledger.pool);
            let p = before.ledger.pool[next_in_pool(before.ledger.table, before.ledger.pool)];
            // What is left in the pool was in it, and the slot taken is not.
            assert forall|q: int|
                0 <= q < after.ledger.pool.len() implies before.ledger.pool.contains(
                #[trigger] after.ledger.pool[q],
            ) && after.ledger.pool[q] != p by {}
            // The slot taken now was in the pool until now, and the slots
            // taken before were not: so it is none of them.
            assert(taken(start.table, start.pool, after.ledger.pool, start.table[p].id));
            assert forall|k: int|
                0 <= k < after.plan.len() && (#[trigger] after.plan[k])
                    is RenameAndReuse implies taken(
                start.table,
                start.pool,
                after.ledger.pool,
                after.plan[k]->reused_category_id,
            ) by {}
            assert forall|k: int, l: int|
                #![trigger after.plan[k], after.plan[l]]
                0 <= k < l < after.plan.len() && after.plan[k] is RenameAndReuse && after.plan[l]
                    is RenameAndReuse implies after.plan[k]->reused_category_id
                != after.plan[l]->reused_category_id by {}
        } else {
            assert forall|k: int|
                0 <= k < after.plan.len() && (#[trigger] after.plan[k])
                    is RenameAndReuse implies k < before.plan.len() && after.plan[k]
                == before.plan[k] by {}
        }
    }
}

/// Where no two categories share an identifier, no two of those that count
/// do.
proof fn lemma_collapse_ids(categories: Seq<Slot>)
    requires
        distinct_ids(categories),
    ensures
        distinct_ids(collapse(categories)),
{
    let table = collapse(categories);
    lemma_collapse_first(categories, categories.len());
    assert forall|a: int, b: int|
        #![trigger table[a], table[b]]
        0 <= a < b < table.len() implies table[a].id != table[b].id by {
        // The two slots stem from two categories, since their keys differ.
        let i = choose|i: int|
            0 <= i < categories.len() && !shadowed(categories, i) && table[a] == categories[i];
        let j = choose|j: int|
            0 <= j < categories.len() && !shadowed(categories, j) && table[b] == categories[j];
        assert(i != j);
    }
}

/// Pool conservation, category by category: where no two categories share
/// an identifier, every category that a run reuses stands in the pool that
/// the run starts with, none is reused twice, and none is reported as
/// extraneous.
pub proof fn lemma_reused_from_pool(subjects: Seq<SubjectView>, categories: Seq<Slot>)
    requires
        distinct_ids(categories),
    ensures
        ({
            let start = opening(categories, subjects);
            let out = reconciled(subjects, categories);
            &&& forall|k: int|
                0 <= k < out.plan.len() && (#[trigger] out.plan[k]) is RenameAndReuse
                    ==> exists|q: int|
                    0 <= q < start.pool.len() && start.table[#[trigger] start.pool[q]].id
                        == out.plan[k]->reused_category_id
            &&& forall|k: int, e: int|
                0 <= k < out.plan.len() && (#[trigger] out.plan[k]) is RenameAndReuse && 0 <= e
                    < out.extraneous.len() ==> (#[trigger] out.extraneous[e]).id
                    != out.plan[k]->reused_category_id
            &&& forall|k: int, l: int|
                #![trigger out.plan[k], out.plan[l]]
                0 <= k < l < out.plan.len() && out.plan[k] is RenameAndReuse && out.plan[l]
                    is RenameAndReuse ==> out.plan[k]->reused_category_id
                    != out.plan[l]->reused_category_id
        }),
{
    let start = opening(categories, subjects);
    let n = subjects.len();
    let end = run(start, subjects, n);
    let out = reconciled(subjects, categories);
    lemma_collapse_ids(categories);
    lemma_opening_sound(categories, subjects);
    lemma_run_sound(start, subjects, n);
    lemma_reuses_apart(start, subjects, n);
    assert forall|k: int|
        0 <= k < out.plan.len() && (#[trigger] out.plan[k]) is RenameAndReuse implies exists|q: int|
        0 <= q < start.pool.len() && start.table[#[trigger] start.pool[q]].id
            == out.plan[k]->reused_category_id by {
        // The slot that the reuse took stands in the pool at the start.
        let r = out.plan[k]->reused_category_id;
        let o = choose|o: int|
            0 <= o < start.table.len() && (#[trigger] start.table[o]).id == r
                && start.pool.contains(o) && !end.ledger.pool.contains(o);
        assert(start.pool.contains(o));
    }
    assert forall|k: int, e: int|
        0 <= k < out.plan.len() && (#[trigger] out.plan[k]) is RenameAndReuse && 0 <= e
            < out.extraneous.len() implies (#[trigger] out.extraneous[e]).id
        != out.plan[k]->reused_category_id by {
        // The slot that the reuse took is not in the pool at the end, so it
        // is not the slot reported.
        let r = out.plan[k]->reused_category_id;
        let o = choose|o: int|
            0 <= o < start.table.len() && (#[trigger] start.table[o]).id == r
                && start.pool.contains(o) && !end.ledger.pool.contains(o);
        assert(o != end.ledger.pool[e]);
    }
}

/// While every critter is filed where it belongs, a run changes nothing
/// and plans nothing but `NoOp`.
pub proof fn lemma_run_settled(start: Ledger, subjects: Seq<SubjectView>, n: nat)
    requires
        n <= subjects.len(),
        forall|i: int| 0 <= i < subjects.len() ==> settled(start.table, #[trigger] subjects[i]),
    ensures
        run(start, subjects, n).ledger == start,
        forall|k: int|
            0 <= k < run(start, subjects, n).plan.len() ==> #[trigger] run(
                start,
                subjects,
                n,
            ).plan[k] is NoOp,
    decreases n,
{
    if n > 0 {
        lemma_run_settled(start, subjects, (n - 1) as nat);
    }
}

/// Idempotence: on a catalog that is in the desired state, where every
/// critter with a desired group is filed under the category of that name, a
/// run plans nothing but `NoOp` and leaves the pool as it found it.
pub proof fn lemma_idempotence(subjects: Seq<SubjectView>, categories: Seq<Slot>)
    requires
        forall|i: int|
            0 <= i < subjects.len() ==> settled(collapse(categories), #[trigger] subjects[i]),
    ensures
        forall|k: int|
            0 <= k < reconciled(subjects, categories).plan.len() ==> #[trigger] reconciled(
                subjects,
                categories,
            ).plan[k] is NoOp,
        reuses(reconciled(subjects, categories).plan) == 0,
        reconciled(subjects, categories).extraneous.len() == opening(
            categories,
            subjects,
        ).pool.len(),
{
    let start = opening(categories, subjects);
    lemma_run_settled(start, subjects, subjects.len());
    lemma_pool_conservation(subjects, categories);
}

/// The entry of the critter at `j` stands in the plan at its position.
pub proof fn lemma_entry_in_plan(start: Ledger, subjects: Seq<SubjectView>, j: int, n: nat)
    requires
        0 <= j < n <= subjects.len(),
        entry_at(start, subjects, j) is Some,
    ensures
        entry_position(start, subjects, j) < run(start, subjects, n).plan.len(),
        run(start, subjects, n).plan[entry_position(start, subjects, j)] == entry_at(
            start,
            subjects,
            j,
        )->Some_0,
    decreases n,
{
    if n - 1 > j {
        lemma_entry_in_plan(start, subjects, j, (n - 1) as nat);
    }
}

/// A desired key that the table holds stays where it is, under the same
/// identifier, whatever a step does.
pub proof fn lemma_key_stays(
    ledger: Ledger,
    subjects: Seq<SubjectView>,
    k: int,
    key: Seq<char>,
    d: int,
)
    requires
        sound(ledger, subjects),
        0 <= k < subjects.len(),
        wanted(subjects, key),
        first_with_key(ledger.table, key) == Some(d),
    ensures
        first_with_key(step(ledger, subjects[k]).ledger.table, key) == Some(d),
        step(ledger, subjects[k]).ledger.table[d].id == ledger.table[d].id,
{
    let subject = subjects[k];
    let after = step(ledger, subject).ledger;
    if after != ledger {
        let table = ledger.table;
        let pool = ledger.pool;
        lemma_next_exists(table, pool);
        assert(has_key_at(after.table, key, d)) by {
            assert forall|j: int| 0 <= j < d implies (#[trigger] after.table[j]).key != key by {}
        }
    }
}

/// A desired key that the table holds after `i` critters is still there,
/// under the same identifier, after `n`.
pub proof fn lemma_key_stays_run(
    start: Ledger,
    subjects: Seq<SubjectView>,
    i: nat,
    n: nat,
    key: Seq<char>,
    d: int,
)
    requires
        sound(start, subjects),
        i <= n <= subjects.len(),
        wanted(subjects, key),
        first_with_key(run(start, subjects, i).ledger.table, key) == Some(d),
    ensures
        first_with_key(run(start, subjects, n).ledger.table, key) == Some(d),
        run(start, subjects, n).ledger.table[d].id == run(start, subjects, i).ledger.table[d].id,
    decreases n,
{
    if n > i {
        lemma_key_stays_run(start, subjects, i, (n - 1) as nat, key, d);
        lemma_run_sound(start, subjects, (n - 1) as nat);
        lemma_key_stays(run(start, subjects, (n - 1) as nat).ledger, subjects, n - 1, key, d);
    }
}

/// Collapsing: once a category has been renamed for a critter, every later
/// critter that desires the same group finds it. Its entry is `NoOp` if it
/// is already filed under that category, and otherwise a `Reassign` to it:
/// never a second reuse, never a creation.
pub proof fn lemma_collapsing(subjects: Seq<SubjectView>, categories: Seq<Slot>, i: int, j: int)
    requires
        0 <= i < j < subjects.len(),
        subjects[i].desired is Ok,
        subjects[j].desired is Ok,
        subjects[i].desired->Ok_0.key == subjects[j].desired->Ok_0.key,
        entry_at(opening(categories, subjects), subjects, i) matches Some(e) && e
            is RenameAndReuse,
    ensures
        ({
            let start = opening(categories, subjects);
            let reused = entry_at(start, subjects, i)->Some_0->reused_category_id;
            let plan = reconciled(subjects, categories).plan;
            let at = entry_position(start, subjects, j);
            &&& 0 <= at < plan.len()
            &&& entry_at(start, subjects, j) == Some(plan[at])
            &&& subjects[j].category == Some(reused) ==> plan[at] is NoOp
            &&& subjects[j].category != Some(reused) ==> plan[at] == PlanEntryView::Reassign {
                entity: subjects[j].id,
                from_category: filed_under(start.table, subjects[j].category),
                to_category: reused,
            }
        }),
{
    let start = opening(categories, subjects);
    let key = subjects[i].desired->Ok_0.key;
    lemma_opening_sound(categories, subjects);
    lemma_run_sound(start, subjects, i as nat);
    let ledger = run(start, subjects, i as nat).ledger;
    let after = run(start, subjects, (i + 1) as nat).ledger;
    lemma_next_exists(ledger.table, ledger.pool);
    lemma_found_key(ledger.table, key);
    let p = ledger.pool[next_in_pool(ledger.table, ledger.pool)];
    assert(has_key_at(after.table, key, p)) by {
        assert forall|q: int| 0 <= q < p implies (#[trigger] after.table[q]).key != key by {}
    }
    lemma_key_stays_run(start, subjects, (i + 1) as nat, j as nat, key, p);
    let later = run(start, subjects, j as nat).ledger;
    lemma_run_sound(start, subjects, j as nat);
    match subjects[j].category {
        Some(id) => {
            lemma_found_id(later.table, id);
            lemma_same_ids_find(start.table, later.table, id);
        },
        None => {},
    }
    lemma_entry_in_plan(start, subjects, j, subjects.len());
}

/// Reuse on deficit, once: where a critter that is filed under a category
/// desires a group that no category bears, and the pool is not empty, a
/// category of the pool is renamed for it; and a later critter that desires
/// the same group is reassigned to that category, or left alone if it is
/// filed under it already.
pub proof fn lemma_one_reuse_serves_both(
    subjects: Seq<SubjectView>,
    categories: Seq<Slot>,
    i: int,
    j: int,
)
    requires
        0 <= i < j < subjects.len(),
        subjects[i].desired is Ok,
        subjects[j].desired is Ok,
        subjects[i].desired->Ok_0.key == subjects[j].desired->Ok_0.key,
        ({
            let ledger = run(opening(categories, subjects), subjects, i as nat).ledger;
            &&& current_slot(ledger.table, subjects[i].category) is Some
            &&& first_with_key(ledger.table, subjects[i].desired->Ok_0.key) is None
            &&& ledger.pool.len() > 0
        }),
    ensures
        ({
            let start = opening(categories, subjects);
            let first = entry_at(start, subjects, i);
            let second = entry_at(start, subjects, j);
            &&& first matches Some(e) && e is RenameAndReuse
            &&& second matches Some(e) && (e is NoOp || (e is Reassign && e->to_category
                == first->Some_0->reused_category_id))
        }),
{
    lemma_collapsing(subjects, categories, i, j);
}

/// At most one reuse for a group: two critters for which categories are
/// renamed desire groups with different keys.
pub proof fn lemma_one_reuse_per_key(
    subjects: Seq<SubjectView>,
    categories: Seq<Slot>,
    i: int,
    j: int,
)
    requires
        0 <= i < j < subjects.len(),
        entry_at(opening(categories, subjects), subjects, i) matches Some(e) && e
            is RenameAndReuse,
        entry_at(opening(categories, subjects), subjects, j) matches Some(e) && e
            is RenameAndReuse,
    ensures
        subjects[i].desired is Ok,
        subjects[j].desired is Ok,
        subjects[i].desired->Ok_0.key != subjects[j].desired->Ok_0.key,
{
    if subjects[i].desired->Ok_0.key == subjects[j].desired->Ok_0.key {
        lemma_collapsing(subjects, categories, i, j);
    }
}

/// What a step reports stands in the diagnostics of every run that goes
/// past it.
proof fn lemma_notes_kept(start: Ledger, subjects: Seq<SubjectView>, j: int, n: nat, q: int)
    requires
        0 <= j < n <= subjects.len(),
        0 <= q < step(run(start, subjects, j as nat).ledger, subjects[j]).notes.len(),
    ensures
        run(start, subjects, n).diagnostics.contains(
            step(run(start, subjects, j as nat).ledger, subjects[j]).notes[q],
        ),
    decreases n,
{
    let before = run(start, subjects, (n - 1) as nat);
    let all = run(start, subjects, n).diagnostics;
    let note = step(run(start, subjects, j as nat).ledger, subjects[j]).notes[q];
    if n - 1 > j {
        lemma_notes_kept(start, subjects, j, (n - 1) as nat, q);
        let at = choose|at: int|
            0 <= at < before.diagnostics.len() && before.diagnostics[at] == note;
        assert(all[at] == note);
    } else {
        assert(all[before.diagnostics.len() + q] == note);
    }
}

/// Every entry of the plan that acts on a critter names one that has a
/// desired group.
proof fn lemma_entries_resolved(start: Ledger, subjects: Seq<SubjectView>, n: nat, k: int)
    requires
        n <= subjects.len(),
        0 <= k < run(start, subjects, n).plan.len(),
    ensures
        entity_of(run(start, subjects, n).plan[k]) matches Some(id) ==> exists|j: int|
            0 <= j < n && (#[trigger] subjects[j]).id == id && subjects[j].desired is Ok,
    decreases n,
{
    if n > 0 {
        let before = run(start, subjects, (n - 1) as nat);
        if k < before.plan.len() {
            lemma_entries_resolved(start, subjects, (n - 1) as nat, k);
        }
    }
}

/// No critter is dropped in silence, and none stops the run. A critter with
/// a desired group has its entry in the plan. A critter without one has no
/// entry, and the diagnostics name it and the reason. Whatever entry acts on
/// a critter names one that has a desired group.
pub proof fn lemma_accounted(subjects: Seq<SubjectView>, categories: Seq<Slot>, j: int)
    requires
        0 <= j < subjects.len(),
    ensures
        ({
            let start = opening(categories, subjects);
            let out = reconciled(subjects, categories);
            let at = entry_position(start, subjects, j);
            &&& subjects[j].desired is Ok ==> 0 <= at < out.plan.len() && entry_at(
                start,
                subjects,
                j,
            ) == Some(out.plan[at])
            &&& subjects[j].desired matches Err(e) ==> entry_at(start, subjects, j) is None
                && out.diagnostics.contains(
                Diagnostic { entity: subjects[j].id, kind: DiagnosticKind::Unresolved(e) },
            )
            &&& forall|k: int|
                0 <= k < out.plan.len() ==> (entity_of(#[trigger] out.plan[k]) matches Some(id)
                    ==> exists|i: int|
                    0 <= i < subjects.len() && (#[trigger] subjects[i]).id == id
                        && subjects[i].desired is Ok)
        }),
{
    let start = opening(categories, subjects);
    let out = reconciled(subjects, categories);
    if subjects[j].desired is Ok {
        lemma_entry_in_plan(start, subjects, j, subjects.len());
    } else {
        lemma_notes_kept(start, subjects, j, subjects.len(), 0);
    }
    assert forall|k: int| 0 <= k < out.plan.len() implies (entity_of(#[trigger] out.plan[k])
        matches Some(id) ==> exists|i: int|
        0 <= i < subjects.len() && (#[trigger] subjects[i]).id == id && subjects[i].desired
            is Ok) by {
        lemma_entries_resolved(start, subjects, subjects.len(), k);
    }
}

/// Those of the first `n` critters that have a desired group, in catalog
/// order.
pub open spec fn resolved_first(subjects: Seq<SubjectView>, n: nat) -> Seq<SubjectView>
    decreases n,
{
    if n == 0 {
        Seq::empty()
    } else {
        let head = resolved_first(subjects, (n - 1) as nat);
        if subjects[n - 1].desired is Ok {
            head.push(subjects[n - 1])
        } else {
            head
        }
    }
}

/// The critters that have a desired group.
pub open spec fn resolved_only(subjects: Seq<SubjectView>) -> Seq<SubjectView> {
    resolved_first(subjects, subjects.len())
}

/// A run over the first `n` critters reads no others.
proof fn lemma_run_prefix(start: Ledger, a: Seq<SubjectView>, b: Seq<SubjectView>, n: nat)
    requires
        n <= a.len(),
        n <= b.len(),
        forall|i: int| 0 <= i < n ==> a[i] == b[i],
    ensures
        run(start, a, n) == run(start, b, n),
    decreases n,
{
    if n > 0 {
        lemma_run_prefix(start, a, b, (n - 1) as nat);
    }
}

/// The critters that `resolved_first` keeps are those with a desired group.
proof fn lemma_resolved_first(subjects: Seq<SubjectView>, n: nat)
    requires
        n <= subjects.len(),
    ensures
        forall|a: int|
            0 <= a < resolved_first(subjects, n).len() ==> (#[trigger] resolved_first(
                subjects,
                n,
            )[a]).desired is Ok && exists|i: int|
                0 <= i < n && #[trigger] subjects[i] == resolved_first(subjects, n)[a],
        forall|i: int|
            0 <= i < n && (#[trigger] subjects[i]).desired is Ok ==> resolved_first(
                subjects,
                n,
            ).contains(subjects[i]),
    decreases n,
{
    if n > 0 {
        lemma_resolved_first(subjects, (n - 1) as nat);
        let head = resolved_first(subjects, (n - 1) as nat);
        let all = resolved_first(subjects, n);
        assert forall|a: int| 0 <= a < all.len() implies (#[trigger] all[a]).desired is Ok
            && exists|i: int| 0 <= i < n && #[trigger] subjects[i] == all[a] by {}
        assert forall|i: int|
            0 <= i < n && (#[trigger] subjects[i]).desired is Ok implies all.contains(
            subjects[i],
        ) by {
            if i < n - 1 {
                let a = choose|a: int| 0 <= a < head.len() && head[a] == subjects[i];
                assert(all[a] == subjects[i]);
            } else {
                assert(all[all.len() - 1] == subjects[i]);
            }
        }
    }
}

/// The critters without a desired group desire nothing.
proof fn lemma_wanted_resolved(subjects: Seq<SubjectView>, key: Seq<char>)
    ensures
        wanted(subjects, key) == wanted(resolved_only(subjects), key),
{
    lemma_resolved_first(subjects, subjects.len());
}

/// The pool depends on the critters only through what they desire.
proof fn lemma_extraneous_same(table: Seq<Slot>, subjects: Seq<SubjectView>, n: nat)
    requires
        n <= table.len(),
    ensures
        extraneous_first(table, subjects, n) == extraneous_first(table, resolved_only(subjects), n),
    decreases n,
{
    if n > 0 {
        lemma_extraneous_same(table, subjects, (n - 1) as nat);
        lemma_wanted_resolved(subjects, table[n - 1].key);
    }
}

/// Up to the diagnostics, a run over the first `n` critters is the run over
/// those of them that have a desired group.
proof fn lemma_run_resolved(start: Ledger, subjects: Seq<SubjectView>, n: nat)
    requires
        n <= subjects.len(),
    ensures
        ({
            let kept = resolved_first(subjects, n);
            &&& run(start, subjects, n).ledger == run(start, kept, kept.len()).ledger
            &&& run(start, subjects, n).plan == run(start, kept, kept.len()).plan
        }),
    decreases n,
{
    if n > 0 {
        lemma_run_resolved(start, subjects, (n - 1) as nat);
        let head = resolved_first(subjects, (n - 1) as nat);
        let kept = resolved_first(subjects, n);
        if subjects[n - 1].desired is Ok {
            lemma_run_prefix(start, head, kept, head.len());
        }
    }
}

/// Failures stay apart: the critters without a desired group change
/// nothing for the others. The plan and the extraneous categories are those
/// of the run over the critters that have a desired group.
pub proof fn lemma_failures_apart(subjects: Seq<SubjectView>, categories: Seq<Slot>)
    ensures
        reconciled(subjects, categories).plan == reconciled(
            resolved_only(subjects),
            categories,
        ).plan,
        reconciled(subjects, categories).extraneous == reconciled(
            resolved_only(subjects),
            categories,
        ).extraneous,
{
    let table = collapse(categories);
    lemma_extraneous_same(table, subjects, table.len());
    lemma_run_resolved(opening(categories, subjects), subjects, subjects.len());
}

} // verus!
