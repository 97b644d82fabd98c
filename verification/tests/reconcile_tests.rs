use macdive_exporter::catalog::{Critter, CritterCategory};
use macdive_exporter::critters::{
    diff_critter_categories, keyed_categories, keyed_group, reconcile, resolve_critters, Assignment,
};
use macdive_exporter::groups::{CritterCategoryOverride, GroupName, OverrideRule};
use macdive_exporter::plan::{
    Diagnostic, DiagnosticKind, LookupError, PlanEntry, ResolveError,
};
use macdive_exporter::reconcile::{
    reconcile_keyed, KeyedCategory, KeyedGroup, Reconciler, Subject,
};
use macdive_exporter::taxonomy::{Taxon, TaxonCache};
use macdive_exporter::text::normalize;

fn critter(id: i64, species: Option<&str>, category: Option<i64>) -> Critter {
    Critter { id, name: None, species: species.map(|s| s.to_string()), category }
}

fn category(id: i64, name: &str) -> CritterCategory {
    CritterCategory { id, name: Some(name.to_string()) }
}

fn taxon(name: &str, group: Option<&str>) -> Taxon {
    Taxon {
        scientific_name: name.to_string(),
        preferred_common_name: None,
        group: group.map(|g| g.to_string()),
    }
}

fn cache_of(entries: Vec<(&str, Result<Taxon, LookupError>)>) -> TaxonCache {
    let mut cache = TaxonCache::new();
    for (name, outcome) in entries {
        assert!(cache.record(normalize(name), outcome));
    }
    cache
}

fn no_rules() -> CritterCategoryOverride {
    CritterCategoryOverride { rules: Vec::new() }
}

fn slot(id: i64, name: &str) -> KeyedCategory {
    KeyedCategory { id, name: name.to_string(), key: name.to_lowercase() }
}

fn wants(id: i64, category: Option<i64>, name: &str) -> Subject {
    Subject {
        id,
        category,
        desired: Ok(KeyedGroup { name: name.to_string(), key: name.to_lowercase(), gap: false }),
    }
}

fn derived(critter: i64, category: Option<i64>, group: &str) -> Assignment {
    Assignment { critter, category, desired: Ok(GroupName::Derived(group.to_string())) }
}

fn rename(entity: i64, reused: i64, old_name: &str, new_name: &str) -> PlanEntry {
    PlanEntry::RenameAndReuse {
        entity,
        reused_category_id: reused,
        old_name: old_name.to_string(),
        new_name: new_name.to_string(),
    }
}

fn create(entity: i64, name: &str) -> PlanEntry {
    PlanEntry::CreateNewCategory { entity, desired_name: name.to_string() }
}

fn reassign(entity: i64, from: Option<i64>, to: i64) -> PlanEntry {
    PlanEntry::Reassign { entity, from_category: from, to_category: to }
}

fn count_reuses(plan: &[PlanEntry]) -> usize {
    plan.iter().filter(|e| matches!(e, PlanEntry::RenameAndReuse { .. })).count()
}

fn keyed(assignments: &[Assignment]) -> Vec<Subject> {
    assignments
        .iter()
        .map(|a| Subject {
            id: a.critter,
            category: a.category,
            desired: match &a.desired {
                Ok(g) => Ok(keyed_group(g)),
                Err(e) => Err(*e),
            },
        })
        .collect()
}

#[test]
fn table_coverage_scenario() {
    let categories = vec![category(1, "Fish"), category(2, "Coral")];
    let critters = vec![critter(10, Some("X"), Some(1)), critter(11, Some("Y"), Some(2))];
    let cache = cache_of(vec![
        ("X", Ok(taxon("X", Some("Fish")))),
        ("Y", Ok(taxon("Y", Some("Mollusk")))),
    ]);
    let assignments = resolve_critters(&critters, &cache, &no_rules());
    let pool = Reconciler::new(&keyed_categories(&categories), &keyed(&assignments)).extraneous();
    assert_eq!(pool.len(), 1);
    assert_eq!(pool[0].id, 2);
    assert_eq!(pool[0].name, "Coral");

    let out = diff_critter_categories(&critters, &categories, &cache, &no_rules());
    assert_eq!(out.plan, vec![PlanEntry::NoOp, rename(11, 2, "Coral", "Mollusk")]);
    assert!(out.diagnostics.is_empty());
    assert!(out.extraneous.is_empty());
}

#[test]
fn a_critter_without_category_renames_nothing() {
    let categories = vec![category(1, "Fish"), category(2, "Coral")];
    let critters = vec![critter(10, Some("X"), Some(1)), critter(11, Some("Y"), None)];
    let cache = cache_of(vec![
        ("X", Ok(taxon("X", Some("Fish")))),
        ("Y", Ok(taxon("Y", Some("Mollusk")))),
    ]);
    let out = diff_critter_categories(&critters, &categories, &cache, &no_rules());
    assert_eq!(out.plan, vec![PlanEntry::NoOp, create(11, "Mollusk")]);
    assert!(out.diagnostics.is_empty());
    assert_eq!(out.extraneous.len(), 1);
    assert_eq!(out.extraneous[0].id, 2);
}

#[test]
fn exhaustion_scenario() {
    let categories = vec![category(1, "Fish")];
    let critters = vec![critter(10, Some("X"), Some(1)), critter(11, Some("Y"), None)];
    let cache = cache_of(vec![
        ("X", Ok(taxon("X", Some("Fish")))),
        ("Y", Ok(taxon("Y", Some("Mollusk")))),
    ]);
    let out = diff_critter_categories(&critters, &categories, &cache, &no_rules());
    assert_eq!(out.plan, vec![PlanEntry::NoOp, create(11, "Mollusk")]);
    assert!(out.extraneous.is_empty());
}

#[test]
fn exhaustion_with_a_current_category_is_reported() {
    let categories = vec![category(1, "Fish")];
    let critters = vec![critter(10, Some("X"), Some(1)), critter(11, Some("Y"), Some(1))];
    let cache = cache_of(vec![
        ("X", Ok(taxon("X", Some("Fish")))),
        ("Y", Ok(taxon("Y", Some("Mollusk")))),
    ]);
    let out = diff_critter_categories(&critters, &categories, &cache, &no_rules());
    assert_eq!(out.plan, vec![PlanEntry::NoOp, create(11, "Mollusk")]);
    assert_eq!(
        out.diagnostics,
        vec![Diagnostic { entity: 11, kind: DiagnosticKind::PoolExhausted }]
    );
}

#[test]
fn lookup_failure_scenario() {
    let categories = vec![category(1, "Fish"), category(2, "Coral")];
    let critters = vec![
        critter(10, Some("X"), Some(2)),
        critter(12, Some("Z"), Some(1)),
        critter(11, Some("Y"), None),
    ];
    let cache = cache_of(vec![
        ("X", Ok(taxon("X", Some("Fish")))),
        ("Z", Err(LookupError::NotFound)),
        ("Y", Ok(taxon("Y", Some("Fish")))),
    ]);
    let out = diff_critter_categories(&critters, &categories, &cache, &no_rules());
    assert_eq!(
        out.diagnostics,
        vec![Diagnostic {
            entity: 12,
            kind: DiagnosticKind::Unresolved(ResolveError::Lookup(LookupError::NotFound)),
        }]
    );
    assert!(out.plan.iter().all(|e| e.entity() != Some(12)));
    assert_eq!(out.plan, vec![reassign(10, Some(2), 1), reassign(11, None, 1)]);
    assert_eq!(out.extraneous.len(), 1);
    assert_eq!(out.extraneous[0].id, 2);
}

#[test]
fn service_failure_is_reported_like_any_other() {
    let critters = vec![critter(1, Some("Q"), None)];
    let cache = cache_of(vec![("Q", Err(LookupError::Service))]);
    let out = diff_critter_categories(&critters, &Vec::new(), &cache, &no_rules());
    assert!(out.plan.is_empty());
    assert_eq!(
        out.diagnostics,
        vec![Diagnostic {
            entity: 1,
            kind: DiagnosticKind::Unresolved(ResolveError::Lookup(LookupError::Service)),
        }]
    );
}

#[test]
fn critter_without_species_is_reported() {
    let critters = vec![critter(1, None, Some(1))];
    let categories = vec![category(1, "Fish")];
    let out =
        diff_critter_categories(&critters, &categories, &TaxonCache::new(), &no_rules());
    assert!(out.plan.is_empty());
    assert_eq!(
        out.diagnostics,
        vec![Diagnostic {
            entity: 1,
            kind: DiagnosticKind::Unresolved(ResolveError::MissingSpecies),
        }]
    );
    assert_eq!(out.extraneous.len(), 1);
}

#[test]
fn species_that_was_never_looked_up_is_reported() {
    let critters = vec![critter(1, Some("X"), None)];
    let out = diff_critter_categories(&critters, &Vec::new(), &TaxonCache::new(), &no_rules());
    assert!(out.plan.is_empty());
    assert_eq!(
        out.diagnostics,
        vec![Diagnostic { entity: 1, kind: DiagnosticKind::Unresolved(ResolveError::NotResolved) }]
    );
}

#[test]
fn unclassified_species_is_planned_and_reported() {
    let critters = vec![critter(1, Some("X"), None)];
    let cache = cache_of(vec![("X", Ok(taxon("X", None)))]);
    let out = diff_critter_categories(&critters, &Vec::new(), &cache, &no_rules());
    assert_eq!(out.plan, vec![create(1, "Unclassified")]);
    assert_eq!(
        out.diagnostics,
        vec![Diagnostic { entity: 1, kind: DiagnosticKind::ClassificationGap }]
    );
}

#[test]
fn every_row_of_the_decision_table() {
    let categories = vec![slot(1, "Fish"), slot(2, "Coral"), slot(3, "Worm")];
    let subjects = vec![
        wants(10, Some(1), "Fish"),
        wants(11, Some(2), "Fish"),
        wants(12, None, "Fish"),
        wants(13, Some(1), "Mollusk"),
        wants(14, None, "Shark"),
    ];
    let out = reconcile_keyed(&subjects, &categories);
    assert_eq!(
        out.plan,
        vec![
            PlanEntry::NoOp,
            reassign(11, Some(2), 1),
            reassign(12, None, 1),
            rename(13, 2, "Coral", "Mollusk"),
            create(14, "Shark"),
        ]
    );
    assert!(out.diagnostics.is_empty());
    assert_eq!(out.extraneous, vec![slot(3, "Worm")]);
}

#[test]
fn collapsing_two_critters_share_one_reuse() {
    let categories = vec![slot(1, "Fish"), slot(2, "Coral"), slot(3, "Worm"), slot(4, "Eel")];
    let subjects = vec![
        wants(9, Some(1), "Fish"),
        wants(10, Some(1), "Mollusk"),
        wants(11, Some(3), "MOLLUSK"),
    ];
    let out = reconcile_keyed(&subjects, &categories);
    assert_eq!(
        out.plan,
        vec![PlanEntry::NoOp, rename(10, 2, "Coral", "Mollusk"), reassign(11, Some(3), 2)]
    );
    assert_eq!(count_reuses(&out.plan), 1);
    assert_eq!(out.extraneous, vec![slot(3, "Worm"), slot(4, "Eel")]);
}

#[test]
fn collapsing_a_critter_already_in_the_reused_category_stays() {
    let categories = vec![slot(1, "Fish"), slot(2, "Coral")];
    let subjects = vec![wants(10, Some(2), "Mollusk"), wants(11, Some(2), "Mollusk")];
    let out = reconcile_keyed(&subjects, &categories);
    assert_eq!(out.plan, vec![rename(10, 1, "Fish", "Mollusk"), reassign(11, Some(2), 1)]);
    let subjects = vec![
        wants(9, Some(1), "Fish"),
        wants(10, Some(2), "Mollusk"),
        wants(11, Some(2), "Mollusk"),
    ];
    let out = reconcile_keyed(&subjects, &categories);
    assert_eq!(out.plan, vec![PlanEntry::NoOp, rename(10, 2, "Coral", "Mollusk"), PlanEntry::NoOp]);
}

#[test]
fn reuse_takes_the_least_identifier_first() {
    let categories = vec![slot(7, "Coral"), slot(3, "Worm"), slot(5, "Eel"), slot(1, "Fish")];
    let subjects = vec![
        wants(10, Some(1), "Fish"),
        wants(11, Some(1), "Mollusk"),
        wants(12, Some(1), "Shark"),
    ];
    let out = reconcile_keyed(&subjects, &categories);
    assert_eq!(
        out.plan,
        vec![PlanEntry::NoOp, rename(11, 3, "Worm", "Mollusk"), rename(12, 5, "Eel", "Shark")]
    );
    assert_eq!(out.extraneous, vec![slot(7, "Coral")]);
}

#[test]
fn pool_conservation_on_concrete_values() {
    let categories = vec![slot(1, "A"), slot(2, "B"), slot(3, "C"), slot(4, "D")];
    let subjects = vec![
        wants(10, Some(1), "D"),
        wants(11, Some(1), "E"),
        wants(12, Some(2), "F"),
        wants(13, None, "G"),
        wants(14, Some(9), "E"),
    ];
    let before = Reconciler::new(&categories, &subjects).extraneous().len();
    let out = reconcile_keyed(&subjects, &categories);
    assert_eq!(before, 3);
    assert_eq!(before, count_reuses(&out.plan) + out.extraneous.len());
    assert_eq!(
        out.plan,
        vec![
            reassign(10, Some(1), 4),
            rename(11, 1, "A", "E"),
            rename(12, 2, "B", "F"),
            create(13, "G"),
            reassign(14, None, 1),
        ]
    );
}

#[test]
fn idempotence_on_concrete_values() {
    let categories = vec![category(1, "Fish"), category(2, "Coral"), category(3, "Worm")];
    let first = vec![
        derived(10, Some(1), "Fish"),
        derived(11, Some(1), "Mollusk"),
        derived(12, None, "mollusk"),
    ];
    let out = reconcile(&first, &categories);
    assert_eq!(
        out.plan,
        vec![PlanEntry::NoOp, rename(11, 2, "Coral", "Mollusk"), reassign(12, None, 2)]
    );
    let categories = vec![category(1, "Fish"), category(2, "Mollusk"), category(3, "Worm")];
    let second = vec![
        derived(10, Some(1), "Fish"),
        derived(11, Some(2), "Mollusk"),
        derived(12, Some(2), "mollusk"),
    ];
    let again = reconcile(&second, &categories);
    assert_eq!(again.plan, vec![PlanEntry::NoOp, PlanEntry::NoOp, PlanEntry::NoOp]);
    assert!(again.diagnostics.is_empty());
    assert_eq!(again.extraneous.len(), 1);
    assert_eq!(again.extraneous[0].id, 3);
}

#[test]
fn of_two_categories_with_one_key_the_last_counts() {
    let categories = vec![category(1, "Fish"), category(2, "  FISH "), category(3, "Coral")];
    let assign = vec![
        derived(10, Some(1), "fish"),
        derived(11, Some(2), "fish"),
    ];
    let out = reconcile(&assign, &categories);
    assert_eq!(out.plan, vec![reassign(10, None, 2), PlanEntry::NoOp]);
    assert_eq!(out.extraneous.len(), 1);
    assert_eq!(out.extraneous[0].id, 3);
}

#[test]
fn categories_without_a_name_take_no_part() {
    let categories = vec![CritterCategory { id: 1, name: None }, category(2, "Fish")];
    let keyed = keyed_categories(&categories);
    assert_eq!(keyed, vec![slot(2, "Fish")]);
    let assign = vec![Assignment {
        critter: 10,
        category: Some(1),
        desired: Ok(GroupName::Derived("Fish".into())),
    }];
    let out = reconcile(&assign, &categories);
    assert_eq!(out.plan, vec![reassign(10, None, 2)]);
}

#[test]
fn names_are_matched_without_regard_to_case_and_spacing() {
    let categories = vec![category(1, "Bony  Fish"), category(2, "Coral")];
    let assign = vec![Assignment {
        critter: 10,
        category: Some(2),
        desired: Ok(GroupName::Forced(" bony fish".into())),
    }];
    let out = reconcile(&assign, &categories);
    assert_eq!(out.plan, vec![reassign(10, Some(2), 1)]);
    assert_eq!(out.extraneous.len(), 1);
}

#[test]
fn override_rules_take_part_in_the_run() {
    let categories = vec![category(1, "Fish"), category(2, "Nudibranchs")];
    let critters = vec![critter(10, Some("Chromodoris annae"), Some(1))];
    let cache = cache_of(vec![(
        "Chromodoris annae",
        Ok(taxon("Chromodoris annae", Some("Mollusks"))),
    )]);
    let rules = CritterCategoryOverride {
        rules: vec![OverrideRule { key: "mollusks".into(), group: "Nudibranchs".into() }],
    };
    let out = diff_critter_categories(&critters, &categories, &cache, &rules);
    assert_eq!(out.plan, vec![reassign(10, Some(1), 2)]);
}

#[test]
fn decide_records_a_reuse_at_once() {
    let categories = vec![slot(1, "Fish"), slot(2, "Coral")];
    let subjects = vec![wants(10, Some(1), "Fish"), wants(11, Some(1), "Mollusk")];
    let mut state = Reconciler::new(&categories, &subjects);
    assert_eq!(state.extraneous(), vec![slot(2, "Coral")]);
    let first = state.decide(&subjects[0]);
    assert_eq!(first.entry, Some(PlanEntry::NoOp));
    assert!(first.notes.is_empty());
    let second = state.decide(&subjects[1]);
    assert_eq!(second.entry, Some(rename(11, 2, "Coral", "Mollusk")));
    assert!(state.extraneous().is_empty());
    let third = state.decide(&wants(12, None, "mollusk"));
    assert_eq!(third.entry, Some(reassign(12, None, 2)));
}

#[test]
fn an_empty_catalog_gives_an_empty_plan() {
    let out = reconcile_keyed(&Vec::new(), &Vec::new());
    assert!(out.plan.is_empty());
    assert!(out.diagnostics.is_empty());
    assert!(out.extraneous.is_empty());
}

#[test]
fn critters_without_a_desired_group_change_nothing_for_the_others() {
    let categories = vec![slot(1, "Fish"), slot(2, "Coral"), slot(3, "Worm")];
    let with_failures = vec![
        Subject { id: 20, category: Some(2), desired: Err(ResolveError::MissingSpecies) },
        wants(10, Some(1), "Mollusk"),
        Subject { id: 21, category: None, desired: Err(ResolveError::NotResolved) },
        wants(11, Some(3), "Fish"),
        Subject {
            id: 22,
            category: Some(3),
            desired: Err(ResolveError::Lookup(LookupError::Service)),
        },
    ];
    let without = vec![wants(10, Some(1), "Mollusk"), wants(11, Some(3), "Fish")];
    let a = reconcile_keyed(&with_failures, &categories);
    let b = reconcile_keyed(&without, &categories);
    assert_eq!(a.plan, b.plan);
    assert_eq!(a.extraneous, b.extraneous);
    assert_eq!(a.plan, vec![rename(10, 2, "Coral", "Mollusk"), reassign(11, Some(3), 1)]);
    assert!(b.diagnostics.is_empty());
    assert_eq!(
        a.diagnostics,
        vec![
            Diagnostic {
                entity: 20,
                kind: DiagnosticKind::Unresolved(ResolveError::MissingSpecies),
            },
            Diagnostic { entity: 21, kind: DiagnosticKind::Unresolved(ResolveError::NotResolved) },
            Diagnostic {
                entity: 22,
                kind: DiagnosticKind::Unresolved(ResolveError::Lookup(LookupError::Service)),
            },
        ]
    );
}

#[test]
fn an_entry_names_its_critter() {
    assert_eq!(PlanEntry::NoOp.entity(), None);
    assert_eq!(reassign(4, None, 1).entity(), Some(4));
    assert_eq!(rename(5, 1, "a", "b").entity(), Some(5));
    assert_eq!(create(6, "c").entity(), Some(6));
}

#[test]
fn a_second_run_after_the_plan_was_carried_out_plans_nothing() {
    let categories = vec![slot(1, "Fish"), slot(2, "Coral"), slot(3, "Worm"), slot(4, "Eel")];
    let first = vec![
        wants(10, Some(1), "Fish"),
        wants(11, Some(1), "Mollusk"),
        wants(12, None, "Mollusk"),
        wants(13, Some(4), "Shark"),
        wants(14, Some(9), "Fish"),
    ];
    let out = reconcile_keyed(&first, &categories);
    assert_eq!(
        out.plan,
        vec![
            PlanEntry::NoOp,
            rename(11, 2, "Coral", "Mollusk"),
            reassign(12, None, 2),
            rename(13, 3, "Worm", "Shark"),
            reassign(14, None, 1),
        ]
    );
    let renamed = vec![slot(1, "Fish"), slot(2, "Mollusk"), slot(3, "Shark"), slot(4, "Eel")];
    let moved = vec![
        wants(10, Some(1), "Fish"),
        wants(11, Some(2), "Mollusk"),
        wants(12, Some(2), "Mollusk"),
        wants(13, Some(3), "Shark"),
        wants(14, Some(1), "Fish"),
    ];
    let again = reconcile_keyed(&moved, &renamed);
    assert_eq!(again.plan, vec![PlanEntry::NoOp; 5]);
    assert_eq!(again.extraneous, vec![slot(4, "Eel")]);
}

#[test]
fn a_second_run_after_categories_were_created_plans_nothing() {
    let categories = vec![slot(1, "Fish"), slot(2, "Coral")];
    let first = vec![
        wants(10, None, "Mollusk"),
        wants(11, Some(1), "Mollusk"),
        wants(12, None, "Shark"),
        wants(13, Some(1), "Shark"),
        wants(14, Some(2), "Ray"),
        wants(15, None, "Ray"),
    ];
    let out = reconcile_keyed(&first, &categories);
    assert_eq!(
        out.plan,
        vec![
            create(10, "Mollusk"),
            rename(11, 1, "Fish", "Mollusk"),
            create(12, "Shark"),
            rename(13, 2, "Coral", "Shark"),
            create(14, "Ray"),
            create(15, "Ray"),
        ]
    );
    assert_eq!(
        out.diagnostics,
        vec![Diagnostic { entity: 14, kind: DiagnosticKind::PoolExhausted }]
    );
    // Carried out: both categories renamed, one category created for "Ray",
    // and every critter filed under the category that bears its group's name.
    let after = vec![slot(1, "Mollusk"), slot(2, "Shark"), slot(77, "Ray")];
    let moved = vec![
        wants(10, Some(1), "Mollusk"),
        wants(11, Some(1), "Mollusk"),
        wants(12, Some(2), "Shark"),
        wants(13, Some(2), "Shark"),
        wants(14, Some(77), "Ray"),
        wants(15, Some(77), "Ray"),
    ];
    let again = reconcile_keyed(&moved, &after);
    assert_eq!(again.plan, vec![PlanEntry::NoOp; 6]);
    assert!(again.diagnostics.is_empty());
    assert!(again.extraneous.is_empty());
}

#[test]
fn reused_categories_come_from_the_pool_once_each() {
    let categories = vec![slot(5, "A"), slot(2, "B"), slot(9, "C"), slot(4, "D"), slot(7, "E")];
    let subjects = vec![
        wants(10, Some(5), "E"),
        wants(11, Some(5), "X"),
        wants(12, Some(2), "Y"),
        wants(13, Some(9), "X"),
        wants(14, Some(4), "Z"),
    ];
    let before: Vec<i64> =
        Reconciler::new(&categories, &subjects).extraneous().iter().map(|c| c.id).collect();
    assert_eq!(before, vec![5, 2, 9, 4]);
    let out = reconcile_keyed(&subjects, &categories);
    let reused: Vec<i64> = out
        .plan
        .iter()
        .filter_map(|e| match e {
            PlanEntry::RenameAndReuse { reused_category_id, .. } => Some(*reused_category_id),
            _ => None,
        })
        .collect();
    assert_eq!(reused, vec![2, 4, 5]);
    let after: Vec<i64> = out.extraneous.iter().map(|c| c.id).collect();
    assert_eq!(after, vec![9]);
    assert!(reused.iter().all(|id| before.contains(id) && !after.contains(id)));
    assert_eq!(before.len(), reused.len() + after.len());
}
