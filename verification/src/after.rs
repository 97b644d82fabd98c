//! The catalog after a plan has been carried out, and what a second run
//! makes of it.
//!
//! Carrying a plan out is the executor's work. What is modelled here is its
//! outcome: each category renamed as the run renamed it, one category
//! created for each desired name that still has none, and each critter filed
//! where its entry puts it.

use crate::laws::{
    entry_at, lemma_found_key, lemma_id_present, lemma_idempotence, lemma_key_present,
    lemma_key_stays_run, lemma_next_exists, lemma_opening_sound, lemma_run_sound, reuses, settled,
};
use crate::ledger::{
    collapse, collapse_first, first_with_key, has_key_at, next_in_pool, opening, reconciled, run,
    shadowed, Ledger, Slot, SubjectView,
};
use crate::plan::PlanEntryView;
use vstd::prelude::*;

verus! {

/// The categories that the executor creates for the first `n` critters: one
/// for each critter whose entry asks for a new category while neither
/// `renamed` nor a category created before bears the desired name. The
/// category created for the critter at `j` gets the identifier `ids(j)`.
pub open spec fn created_first(
    renamed: Seq<Slot>,
    start: Ledger,
    subjects: Seq<SubjectView>,
    ids: spec_fn(int) -> i64,
    n: nat,
) -> Seq<Slot>
    decreases n,
{
    if n == 0 {
        Seq::empty()
    } else {
        let head = created_first(renamed, start, subjects, ids, (n - 1) as nat);
        let subject = subjects[n - 1];
        if entry_at(start, subjects, n - 1) matches Some(e) && e is CreateNewCategory
            && first_with_key(renamed + head, subject.desired->Ok_0.key) is None {
            head.push(
                Slot {
                    id: ids(n - 1),
                    name: subject.desired->Ok_0.name,
                    key: subject.desired->Ok_0.key,
                },
            )
        } else {
            head
        }
    }
}

/// The categories after the plan of a run has been carried out: those of
/// the run, renamed as the run renamed them, and then those created.
pub open spec fn categories_after(
    start: Ledger,
    subjects: Seq<SubjectView>,
    ids: spec_fn(int) -> i64,
) -> Seq<Slot> {
    let renamed = run(start, subjects, subjects.len()).ledger.table;
    renamed + created_first(renamed, start, subjects, ids, subjects.len())
}

/// The category that a critter is filed under once its entry has been
/// carried out. A critter for which a category was asked for is filed under
/// the category that bears the desired name.
pub open spec fn category_after(
    categories: Seq<Slot>,
    subject: SubjectView,
    entry: Option<PlanEntryView>,
) -> Option<i64> {
    match entry {
        Some(PlanEntryView::Reassign { to_category, .. }) => Some(to_category),
        Some(PlanEntryView::RenameAndReuse { reused_category_id, .. }) => Some(reused_category_id),
        Some(PlanEntryView::CreateNewCategory { .. }) => match first_with_key(
            categories,
            subject.desired->Ok_0.key,
        ) {
            Some(d) => Some(categories[d].id),
            None => subject.category,
        },
        _ => subject.category,
    }
}

/// The critters after the plan of a run has been carried out: each is filed
/// where its own entry puts it.
pub open spec fn critters_after(
    start: Ledger,
    subjects: Seq<SubjectView>,
    ids: spec_fn(int) -> i64,
) -> Seq<SubjectView> {
    Seq::new(
        subjects.len(),
        |i: int|
            SubjectView {
                category: category_after(
                    categories_after(start, subjects, ids),
                    subjects[i],
                    entry_at(start, subjects, i),
                ),
                ..subjects[i]
            },
    )
}

/// No two slots share a key.
pub open spec fn distinct_keys(table: Seq<Slot>) -> bool {
    forall|i: int, j: int|
        #![trigger table[i], table[j]]
        0 <= i < j < table.len() ==> table[i].key != table[j].key
}

/// Where no two categories share a key, every one of them counts.
proof fn lemma_collapse_distinct(categories: Seq<Slot>, n: nat)
    requires
        n <= categories.len(),
        distinct_keys(categories),
    ensures
        collapse_first(categories, n) == categories.take(n as int),
    decreases n,
{
    if n > 0 {
        lemma_collapse_distinct(categories, (n - 1) as nat);
        if shadowed(categories, n - 1) {
            let j = choose|j: int|
                n - 1 < j < categories.len() && (#[trigger] categories[j]).key == categories[n
                    - 1].key;
            assert(categories[n - 1].key != categories[j].key);
        }
    } else {
        assert(categories.take(0) =~= Seq::<Slot>::empty());
    }
}

/// A slot added at the end leaves every key where it was found.
proof fn lemma_push_keeps(table: Seq<Slot>, slot: Slot, key: Seq<char>, d: int)
    requires
        first_with_key(table, key) == Some(d),
    ensures
        first_with_key(table.push(slot), key) == Some(d),
{
    let longer = table.push(slot);
    assert(has_key_at(longer, key, d)) by {
        assert forall|j: int| 0 <= j < d implies (#[trigger] longer[j]).key != key by {
            assert(longer[j] == table[j]);
        }
    }
}

/// What creating categories does to the table: no two slots come to share a
/// key, whatever was found is found where it was, and every critter that
/// asked for a category finds one under the desired name.
proof fn lemma_created(
    renamed: Seq<Slot>,
    start: Ledger,
    subjects: Seq<SubjectView>,
    ids: spec_fn(int) -> i64,
    n: nat,
)
    requires
        n <= subjects.len(),
        distinct_keys(renamed),
    ensures
        distinct_keys(renamed + created_first(renamed, start, subjects, ids, n)),
        forall|key: Seq<char>|
            first_with_key(renamed, key) is Some ==> #[trigger] first_with_key(
                renamed + created_first(renamed, start, subjects, ids, n),
                key,
            ) == first_with_key(renamed, key),
        forall|j: int|
            0 <= j < n && (entry_at(start, subjects, j) matches Some(e) && e is CreateNewCategory)
                ==> first_with_key(
                renamed + created_first(renamed, start, subjects, ids, n),
                (#[trigger] subjects[j]).desired->Ok_0.key,
            ) is Some,
    decreases n,
{
    let all = renamed + created_first(renamed, start, subjects, ids, n);
    if n == 0 {
        assert(all =~= renamed);
    } else {
        lemma_created(renamed, start, subjects, ids, (n - 1) as nat);
        let head = created_first(renamed, start, subjects, ids, (n - 1) as nat);
        let before = renamed + head;
        let subject = subjects[n - 1];
        let asks = entry_at(start, subjects, n - 1) matches Some(e) && e is CreateNewCategory;
        if asks && first_with_key(before, subject.desired->Ok_0.key) is None {
            let key = subject.desired->Ok_0.key;
            let slot = Slot { id: ids(n - 1), name: subject.desired->Ok_0.name, key };
            assert(all =~= before.push(slot));
            lemma_found_key(before, key);
            assert(distinct_keys(all)) by {
                assert forall|i: int, j: int|
                    #![trigger all[i], all[j]]
                    0 <= i < j < all.len() implies all[i].key != all[j].key by {
                    if j < before.len() {
                        assert(all[j] == before[j]);
                    }
                }
            }
            assert forall|k: Seq<char>| first_with_key(renamed, k) is Some implies #[trigger]
                first_with_key(all, k) == first_with_key(renamed, k) by {
                lemma_push_keeps(before, slot, k, first_with_key(renamed, k)->Some_0);
            }
            assert forall|j: int|
                0 <= j < n && (entry_at(start, subjects, j) matches Some(e) && e
                    is CreateNewCategory) implies first_with_key(
                all,
                (#[trigger] subjects[j]).desired->Ok_0.key,
            ) is Some by {
                if j < n - 1 {
                    let k = subjects[j].desired->Ok_0.key;
                    lemma_push_keeps(before, slot, k, first_with_key(before, k)->Some_0);
                } else {
                    lemma_key_present(all, key, before.len() as int);
                }
            }
        }
    }
}

/// Where the run leaves the category that a critter's entry puts it under:
/// at the slot that bears the desired name.
proof fn lemma_filed_at_key(subjects: Seq<SubjectView>, categories: Seq<Slot>, i: int)
    requires
        0 <= i < subjects.len(),
        subjects[i].desired is Ok,
        !(entry_at(opening(categories, subjects), subjects, i) matches Some(e) && e
            is CreateNewCategory),
    ensures
        ({
            let start = opening(categories, subjects);
            let renamed = run(start, subjects, subjects.len()).ledger.table;
            let filed = category_after(renamed, subjects[i], entry_at(start, subjects, i));
            &&& first_with_key(renamed, subjects[i].desired->Ok_0.key) matches Some(d)
            &&& filed == Some(renamed[d].id)
        }),
{
    let start = opening(categories, subjects);
    let n = subjects.len();
    let subject = subjects[i];
    let key = subject.desired->Ok_0.key;
    lemma_opening_sound(categories, subjects);
    lemma_run_sound(start, subjects, i as nat);
    let ledger = run(start, subjects, i as nat).ledger;
    let after = run(start, subjects, (i + 1) as nat).ledger;
    lemma_found_key(ledger.table, key);
    let entry = entry_at(start, subjects, i)->Some_0;
    // The slot that bears the key once the critter has been processed.
    let d: int = if entry is RenameAndReuse {
        ledger.pool[next_in_pool(ledger.table, ledger.pool)]
    } else {
        first_with_key(ledger.table, key)->Some_0
    };
    if entry is RenameAndReuse {
        lemma_next_exists(ledger.table, ledger.pool);
        assert(has_key_at(after.table, key, d)) by {
            assert forall|q: int| 0 <= q < d implies (#[trigger] after.table[q]).key != key by {}
        }
    }
    lemma_key_stays_run(start, subjects, (i + 1) as nat, n, key, d);
}

/// Idempotence of two runs: when the plan of a run has been carried out, a
/// second run plans nothing but `NoOp`. The plan is carried out as
/// `categories_after` and `critters_after` say, whatever identifiers the
/// executor gives to the categories it creates.
pub proof fn lemma_second_run(
    subjects: Seq<SubjectView>,
    categories: Seq<Slot>,
    ids: spec_fn(int) -> i64,
)
    ensures
        ({
            let start = opening(categories, subjects);
            let again = reconciled(
                critters_after(start, subjects, ids),
                categories_after(start, subjects, ids),
            );
            &&& forall|k: int| 0 <= k < again.plan.len() ==> #[trigger] again.plan[k] is NoOp
            &&& reuses(again.plan) == 0
        }),
{
    let start = opening(categories, subjects);
    let n = subjects.len();
    let renamed = run(start, subjects, n).ledger.table;
    let table = categories_after(start, subjects, ids);
    let moved = critters_after(start, subjects, ids);
    lemma_opening_sound(categories, subjects);
    lemma_run_sound(start, subjects, n);
    lemma_created(renamed, start, subjects, ids, n);
    lemma_collapse_distinct(table, table.len());
    assert(table.take(table.len() as int) =~= table);
    assert forall|i: int| 0 <= i < moved.len() implies settled(
        collapse(table),
        #[trigger] moved[i],
    ) by {
        if subjects[i].desired is Ok {
            let key = subjects[i].desired->Ok_0.key;
            let entry = entry_at(start, subjects, i);
            if !(entry matches Some(e) && e is CreateNewCategory) {
                lemma_filed_at_key(subjects, categories, i);
            }
            let d = first_with_key(table, key)->Some_0;
            lemma_id_present(table, table[d].id, d);
        }
    }
    lemma_idempotence(moved, table);
}

} // verus!
