//! The statement that writes a critter's changed names to the database.

use crate::names::{CritterUpdate, CritterUpdateView};
use crate::plan::{PlanEntry, PlanEntryView};
use vstd::prelude::*;
use vstd::string::StringExecFns;

verus! {

/// A value bound to a placeholder of a statement.
#[derive(Clone, Debug, PartialEq, Eq)]
pub enum SqlValue {
    Integer(i64),
    Text(String),
}

/// A bound value as contracts see it.
pub ghost enum SqlValueView {
    Integer(i64),
    Text(Seq<char>),
}

impl DeepView for SqlValue {
    type V = SqlValueView;

    open spec fn deep_view(&self) -> SqlValueView {
        match self {
            SqlValue::Integer(n) => SqlValueView::Integer(*n),
            SqlValue::Text(s) => SqlValueView::Text(s@),
        }
    }
}

impl View for SqlValue {
    type V = SqlValueView;

    open spec fn view(&self) -> SqlValueView {
        self.deep_view()
    }
}

/// A statement with the values for its placeholders, in their order.
#[derive(Clone, Debug, PartialEq, Eq)]
pub struct UpdateStatement {
    pub sql: String,
    pub bindings: Vec<SqlValue>,
}

/// A statement as contracts see it.
pub ghost struct UpdateStatementView {
    pub sql: Seq<char>,
    pub bindings: Seq<SqlValueView>,
}

impl DeepView for UpdateStatement {
    type V = UpdateStatementView;

    open spec fn deep_view(&self) -> UpdateStatementView {
        UpdateStatementView { sql: self.sql@, bindings: self.bindings.deep_view() }
    }
}

impl View for UpdateStatement {
    type V = UpdateStatementView;

    open spec fn view(&self) -> UpdateStatementView {
        self.deep_view()
    }
}

/// A changed name as it is written: with the mark that asks the diver to
/// look it over in MacDive.
pub open spec fn marked(name: Seq<char>) -> Seq<char> {
    "Review: "@ + name
}

/// The clause and the value for a name, if it changes.
pub open spec fn name_clause(column: Seq<char>, name: Option<Seq<char>>) -> Seq<char> {
    match name {
        Some(_) => column,
        None => Seq::empty(),
    }
}

/// The value bound for a name, if it changes.
pub open spec fn name_binding(name: Option<Seq<char>>) -> Seq<SqlValueView> {
    match name {
        Some(n) => seq![SqlValueView::Text(marked(n))],
        None => Seq::empty(),
    }
}

/// The number of placeholders among the first `n` characters of `sql`.
pub open spec fn placeholders_first(sql: Seq<char>, n: nat) -> nat
    decreases n,
{
    if n == 0 {
        0
    } else {
        placeholders_first(sql, (n - 1) as nat) + if sql[n - 1] == '?' {
            1nat
        } else {
            0nat
        }
    }
}

/// The number of placeholders of `sql`.
pub open spec fn placeholders(sql: Seq<char>) -> nat {
    placeholders_first(sql, sql.len())
}

/// The placeholders of two pieces of a statement add up.
pub proof fn lemma_placeholders_add(a: Seq<char>, b: Seq<char>, n: nat)
    requires
        n <= b.len(),
    ensures
        placeholders_first(a + b, a.len() + n) == placeholders(a) + placeholders_first(b, n),
    decreases n,
{
    if n == 0 {
        lemma_placeholders_same(a + b, a, a.len());
    } else {
        lemma_placeholders_add(a, b, (n - 1) as nat);
        assert((a + b)[a.len() + n - 1] == b[n - 1]);
    }
}

/// The count reads the first `n` characters only.
proof fn lemma_placeholders_same(a: Seq<char>, b: Seq<char>, n: nat)
    requires
        n <= a.len(),
        n <= b.len(),
        forall|i: int| 0 <= i < n ==> a[i] == b[i],
    ensures
        placeholders_first(a, n) == placeholders_first(b, n),
    decreases n,
{
    if n > 0 {
        lemma_placeholders_same(a, b, (n - 1) as nat);
    }
}

/// Each clause of a statement holds one placeholder.
proof fn lemma_clauses()
    ensures
        placeholders("UPDATE ZCRITTER SET Z_PK=?"@) == 1,
        placeholders(", ZNAME=?"@) == 1,
        placeholders(", ZSPECIES=?"@) == 1,
        placeholders(", ZRELATIONSHIPCRITTERTOCRITTERCATEGORY=?"@) == 1,
        placeholders(" WHERE Z_PK=?"@) == 1,
{
    reveal_strlit("UPDATE ZCRITTER SET Z_PK=?");
    reveal_strlit(", ZNAME=?");
    reveal_strlit(", ZSPECIES=?");
    reveal_strlit(", ZRELATIONSHIPCRITTERTOCRITTERCATEGORY=?");
    reveal_strlit(" WHERE Z_PK=?");
    reveal_with_fuel(placeholders_first, 45);
}

/// The clause for the category, if it changes.
pub open spec fn category_clause(category: Option<i64>) -> Seq<char> {
    match category {
        Some(_) => ", ZRELATIONSHIPCRITTERTOCRITTERCATEGORY=?"@,
        None => Seq::empty(),
    }
}

/// The value bound for the category, if it changes.
pub open spec fn category_binding(category: Option<i64>) -> Seq<SqlValueView> {
    match category {
        Some(c) => seq![SqlValueView::Integer(c)],
        None => Seq::empty(),
    }
}

/// The statement for a changeset: the critter's row is addressed by its
/// identifier, each changed name is set, with its mark, and the category is
/// set where the changeset files the critter under another one. The values
/// stand in the order of their placeholders.
pub open spec fn statement(changeset: CritterUpdateView) -> UpdateStatementView {
    UpdateStatementView {
        sql: "UPDATE ZCRITTER SET Z_PK=?"@ + name_clause(", ZNAME=?"@, changeset.common_name)
            + name_clause(", ZSPECIES=?"@, changeset.scientific_name) + category_clause(
            changeset.category,
        ) + " WHERE Z_PK=?"@,
        bindings: seq![SqlValueView::Integer(changeset.id)] + name_binding(changeset.common_name)
            + name_binding(changeset.scientific_name) + category_binding(changeset.category)
            + seq![SqlValueView::Integer(changeset.id)],
    }
}

/// A statement binds one value for each of its placeholders.
pub proof fn lemma_one_value_each(changeset: CritterUpdateView)
    ensures
        placeholders(statement(changeset).sql) == statement(changeset).bindings.len(),
{
    lemma_clauses();
    let head = "UPDATE ZCRITTER SET Z_PK=?"@;
    let common = name_clause(", ZNAME=?"@, changeset.common_name);
    let scientific = name_clause(", ZSPECIES=?"@, changeset.scientific_name);
    let category = category_clause(changeset.category);
    let tail = " WHERE Z_PK=?"@;
    lemma_placeholders_add(head, common, common.len());
    lemma_placeholders_add(head + common, scientific, scientific.len());
    lemma_placeholders_add(head + common + scientific, category, category.len());
    lemma_placeholders_add(head + common + scientific + category, tail, tail.len());
}

/// Builds the statement that writes a changeset: see `statement`.
pub fn update_critter(changeset: &CritterUpdate) -> (out: UpdateStatement)
    ensures
        out@ == statement(changeset@),
        placeholders(out@.sql) == out@.bindings.len(),
{
    proof {
        lemma_one_value_each(changeset@);
    }
    let mut sql = String::from_str("UPDATE ZCRITTER SET Z_PK=?");
    let mut bindings: Vec<SqlValue> = Vec::new();
    bindings.push(SqlValue::Integer(changeset.id));
    match &changeset.common_name {
        Some(name) => {
            sql.append(", ZNAME=?");
            bindings.push(SqlValue::Text(String::from_str("Review: ").concat(name.as_str())));
        },
        None => {},
    }
    match &changeset.scientific_name {
        Some(name) => {
            sql.append(", ZSPECIES=?");
            bindings.push(SqlValue::Text(String::from_str("Review: ").concat(name.as_str())));
        },
        None => {},
    }
    match changeset.category {
        Some(category) => {
            sql.append(", ZRELATIONSHIPCRITTERTOCRITTERCATEGORY=?");
            bindings.push(SqlValue::Integer(category));
        },
        None => {},
    }
    sql.append(" WHERE Z_PK=?");
    bindings.push(SqlValue::Integer(changeset.id));
    assert(sql@ =~= statement(changeset@).sql);
    assert(bindings.deep_view() =~= statement(changeset@).bindings);
    UpdateStatement { sql, bindings }
}

/// The change that a plan entry makes to its critter: a reassignment files
/// it under the category it is assigned to, and a reuse files it under the
/// renamed category. The other entries change no critter.
pub open spec fn change_of(entry: PlanEntryView) -> Option<CritterUpdateView> {
    match entry {
        PlanEntryView::Reassign { entity, to_category, .. } => Some(
            CritterUpdateView {
                id: entity,
                common_name: None,
                scientific_name: None,
                category: Some(to_category),
            },
        ),
        PlanEntryView::RenameAndReuse { entity, reused_category_id, .. } => Some(
            CritterUpdateView {
                id: entity,
                common_name: None,
                scientific_name: None,
                category: Some(reused_category_id),
            },
        ),
        _ => None,
    }
}

/// The changeset that carries out a plan entry on its critter: see
/// `change_of`.
pub fn entry_update(entry: &PlanEntry) -> (out: Option<CritterUpdate>)
    ensures
        out.deep_view() == change_of(entry@),
{
    match entry {
        PlanEntry::Reassign { entity, to_category, .. } => Some(
            CritterUpdate {
                id: *entity,
                common_name: None,
                scientific_name: None,
                category: Some(*to_category),
            },
        ),
        PlanEntry::RenameAndReuse { entity, reused_category_id, .. } => Some(
            CritterUpdate {
                id: *entity,
                common_name: None,
                scientific_name: None,
                category: Some(*reused_category_id),
            },
        ),
        _ => None,
    }
}

} // verus!
