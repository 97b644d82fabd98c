use macdive_exporter::catalog::Critter;
use macdive_exporter::critters::diff_critters;
use macdive_exporter::names::{
    compare_names, diff_critter, CritterDiff, CritterUpdate, NameError, NameFinding, NameForms,
};
use macdive_exporter::plan::{LookupError, ResolveError};
use macdive_exporter::taxonomy::{Taxon, TaxonCache};
use macdive_exporter::text::normalize;

fn taxon_named(scientific: &str, common: Option<&str>) -> Taxon {
    Taxon {
        scientific_name: scientific.to_string(),
        preferred_common_name: common.map(|c| c.to_string()),
        group: None,
    }
}

fn forms(
    current_name: Option<&str>,
    preferred_name: Option<&str>,
    shown: &str,
    current: &str,
    preferred: &str,
) -> NameForms {
    NameForms {
        current_name: current_name.map(|s| s.to_string()),
        preferred_name: preferred_name.map(|s| s.to_string()),
        shown_species: shown.to_string(),
        current_species: current.to_string(),
        preferred_species: preferred.to_string(),
    }
}

fn unchanged(id: i64) -> CritterUpdate {
    CritterUpdate { id, common_name: None, scientific_name: None, category: None }
}

#[test]
fn identical_names_give_no_change() {
    let out = compare_names(
        5,
        &forms(Some("Clown Fish"), Some("Clown Fish"), "A B", "A b", "A b"),
    );
    assert_eq!(out, CritterDiff { changeset: unchanged(5), findings: vec![] });
    assert!(!out.changeset.has_changes());
}

#[test]
fn mismatched_common_name_is_replaced() {
    let out = compare_names(5, &forms(Some("Nemo"), Some("Clown Fish"), "A B", "A b", "A b"));
    assert_eq!(
        out.changeset,
        CritterUpdate { common_name: Some("Clown Fish".into()), ..unchanged(5) }
    );
    assert_eq!(
        out.findings,
        vec![NameFinding::MismatchedCommonName {
            current: "Nemo".into(),
            preferred: "Clown Fish".into(),
        }]
    );
    assert!(out.changeset.has_changes());
}

#[test]
fn missing_common_name_is_filled_in() {
    let out = compare_names(5, &forms(None, Some("Clown Fish"), "A B", "A b", "A b"));
    assert_eq!(
        out.changeset,
        CritterUpdate { common_name: Some("Clown Fish".into()), ..unchanged(5) }
    );
    assert_eq!(
        out.findings,
        vec![NameFinding::NewCommonName {
            scientific_name: "A B".into(),
            preferred: "Clown Fish".into(),
        }]
    );
}

#[test]
fn a_common_name_that_the_taxonomy_lacks_stays() {
    let out = compare_names(5, &forms(Some("Nemo"), None, "A B", "A b", "A b"));
    assert_eq!(out, CritterDiff { changeset: unchanged(5), findings: vec![] });
}

#[test]
fn no_common_name_anywhere_is_reported() {
    let out = compare_names(5, &forms(None, None, "A B", "A b", "A b"));
    assert_eq!(out.changeset, unchanged(5));
    assert_eq!(out.findings, vec![NameFinding::NoCommonName { scientific_name: "A B".into() }]);
}

#[test]
fn mismatched_scientific_name_comes_first() {
    let out = compare_names(5, &forms(None, Some("Clown Fish"), "A B", "A b", "A c"));
    assert_eq!(
        out.changeset,
        CritterUpdate {
            common_name: Some("Clown Fish".into()),
            scientific_name: Some("A c".into()),
            ..unchanged(5)
        }
    );
    assert_eq!(
        out.findings,
        vec![
            NameFinding::MismatchedScientificName {
                current: "A b".into(),
                preferred: "A c".into(),
            },
            NameFinding::NewCommonName {
                scientific_name: "A B".into(),
                preferred: "Clown Fish".into(),
            },
        ]
    );
}

#[test]
fn diff_critter_converts_the_names() {
    let out = diff_critter(
        7,
        &Some("  clown fish ".to_string()),
        "amphiprion ocellaris",
        &taxon_named("Amphiprion percula", Some("orange clownfish")),
    )
    .unwrap();
    assert_eq!(
        out.changeset,
        CritterUpdate {
            id: 7,
            common_name: Some("Orange Clownfish".into()),
            scientific_name: Some("Amphiprion percula".into()),
            category: None,
        }
    );
    assert_eq!(
        out.findings,
        vec![
            NameFinding::MismatchedScientificName {
                current: "Amphiprion ocellaris".into(),
                preferred: "Amphiprion percula".into(),
            },
            NameFinding::MismatchedCommonName {
                current: "Clown Fish".into(),
                preferred: "Orange Clownfish".into(),
            },
        ]
    );
}

#[test]
fn diff_critter_ignores_case_and_outer_spaces() {
    let out = diff_critter(
        7,
        &Some("clown fish".to_string()),
        "AMPHIPRION OCELLARIS",
        &taxon_named("amphiprion ocellaris", Some(" Clown Fish ")),
    )
    .unwrap();
    assert_eq!(out.changeset, unchanged(7));
    assert!(out.findings.is_empty());
}

#[test]
fn diff_critter_shows_the_species_in_title_case() {
    let taxon = taxon_named("Amphiprion ocellaris", None);
    let out = diff_critter(7, &None, "amphiprion ocellaris", &taxon).unwrap();
    assert_eq!(
        out.findings,
        vec![NameFinding::NoCommonName { scientific_name: "Amphiprion Ocellaris".into() }]
    );
}

#[test]
fn words_beyond_the_limit_are_not_converted() {
    let long = "a".repeat(1_000_000);
    let taxon = taxon_named("Amphiprion ocellaris", None);
    assert_eq!(diff_critter(1, &Some(long.clone()), "x", &taxon), Err(NameError::Unconvertible));
    assert_eq!(diff_critter(1, &None, &long, &taxon), Err(NameError::Unconvertible));
    assert_eq!(
        diff_critter(1, &None, "x", &taxon_named("x", Some(&long))),
        Err(NameError::Unconvertible)
    );
}

#[test]
fn words_within_the_limit_are_converted() {
    let fits = "a".repeat(999_999);
    let padded = format!("  {}  ", fits);
    let out = diff_critter(1, &Some(padded), &fits, &taxon_named("x", Some(&fits))).unwrap();
    assert_eq!(out.changeset.common_name, None);
    assert_eq!(out.changeset.scientific_name, Some("X".to_string()));
}

#[test]
fn names_of_ten_thousand_and_one_characters_are_converted() {
    let name = "b".repeat(10_001);
    let species = "c".repeat(10_001);
    let taxon = taxon_named("Amphiprion ocellaris", Some("clown fish"));
    let out = diff_critter(1, &Some(format!(" {} ", name)), &species, &taxon).unwrap();
    assert_eq!(out.changeset.id, 1);
    assert_eq!(out.changeset.common_name, Some("Clown Fish".to_string()));
    assert_eq!(out.changeset.scientific_name, Some("Amphiprion ocellaris".to_string()));
    assert_eq!(
        out.findings[0],
        NameFinding::MismatchedScientificName {
            current: format!("C{}", "c".repeat(10_000)),
            preferred: "Amphiprion ocellaris".to_string(),
        }
    );
    assert_eq!(
        out.findings[1],
        NameFinding::MismatchedCommonName {
            current: format!("B{}", "b".repeat(10_000)),
            preferred: "Clown Fish".to_string(),
        }
    );
}

#[test]
fn names_of_more_than_a_million_characters_in_short_words_are_converted() {
    let name = format!("{} {}", "a".repeat(600_000), "b".repeat(600_000));
    let taxon = taxon_named("Amphiprion ocellaris", Some(&name));
    let out = diff_critter(1, &None, "amphiprion ocellaris", &taxon).unwrap();
    let common = out.changeset.common_name.unwrap();
    assert_eq!(common.len(), 1_200_001);
    assert!(common.starts_with("Aaa"));
    assert_eq!(&common[600_000..600_003], " Bb");
}

#[test]
fn long_names_of_many_words_are_converted() {
    let words = "ab cd ".repeat(1_600);
    let taxon = taxon_named("Amphiprion ocellaris", Some(&words));
    let out = diff_critter(1, &None, "amphiprion ocellaris", &taxon).unwrap();
    let name = out.changeset.common_name.unwrap();
    assert!(name.starts_with("Ab Cd Ab Cd"));
    assert_eq!(name.len(), 9_599);
}

#[test]
fn names_at_the_edge_of_the_budget_are_converted() {
    let names = [
        "a".repeat(1_000_001) + "B",
        "a".repeat(1_000_001) + ".x",
        "a".repeat(1_000_000) + "B" + &"a".repeat(10),
        "aB".to_string() + &"a".repeat(2_000_000),
        "a".repeat(999_999) + "\n" + &"b".repeat(999_999),
    ];
    for name in names {
        let taxon = taxon_named("Amphiprion ocellaris", Some(&name));
        let out = diff_critter(1, &None, "amphiprion ocellaris", &taxon).unwrap();
        assert!(out.changeset.common_name.is_some());
    }
}

#[test]
fn names_beyond_the_budget_are_not_converted() {
    let names = [
        "a".repeat(1_000_002) + "B",
        "a".repeat(1_000_001) + ".",
        "B".to_string() + &"a".repeat(1_000_000),
    ];
    for name in names {
        let taxon = taxon_named("Amphiprion ocellaris", Some(&name));
        assert_eq!(
            diff_critter(1, &None, "amphiprion ocellaris", &taxon),
            Err(NameError::Unconvertible)
        );
    }
}

#[test]
fn a_leading_long_s_is_not_put_into_sentence_case() {
    let taxon = taxon_named("\u{17f}tella", None);
    assert_eq!(diff_critter(1, &None, "Stella", &taxon), Err(NameError::Unconvertible));
    let taxon = taxon_named(" -\u{17f}tella", None);
    assert_eq!(diff_critter(1, &None, "Stella", &taxon), Err(NameError::Unconvertible));
    let taxon = taxon_named("Stella", None);
    assert_eq!(diff_critter(1, &None, "\u{17f}tella", &taxon), Err(NameError::Unconvertible));
}

#[test]
fn a_long_s_after_another_kept_character_is_converted() {
    let taxon = taxon_named("Ste\u{17f}la maris", None);
    let out = diff_critter(1, &None, "ste\u{17f}la maris", &taxon).unwrap();
    assert_eq!(out.changeset.scientific_name, None);
    assert_eq!(
        out.findings,
        vec![NameFinding::NoCommonName { scientific_name: "Ste\u{17f}la Maris".to_string() }]
    );
    let taxon = taxon_named("a\u{17f}b", None);
    let out = diff_critter(1, &None, "x \u{17f}", &taxon).unwrap();
    assert_eq!(out.changeset.scientific_name, Some("A\u{17f}b".to_string()));
}

#[test]
fn other_letters_beyond_ascii_are_converted() {
    let taxon = taxon_named("Émile zolae", Some("piña colada"));
    let out = diff_critter(1, &Some("Piña Colada".into()), "émile zolae", &taxon).unwrap();
    assert_eq!(out.changeset, unchanged(1));
    let taxon = taxon_named("\u{212a}elvin", None);
    let out = diff_critter(1, &None, "kelvin", &taxon).unwrap();
    assert_eq!(out.changeset.scientific_name, None);
}

#[test]
fn diff_critters_reports_each_critter() {
    let critters = vec![
        Critter {
            id: 1,
            name: Some("nemo".into()),
            species: Some("Amphiprion ocellaris".into()),
            category: None,
        },
        Critter { id: 2, name: None, species: None, category: None },
        Critter { id: 3, name: None, species: Some("Zzz".into()), category: None },
        Critter { id: 4, name: None, species: Some("Never asked".into()), category: None },
        Critter {
            id: 5,
            name: None,
            species: Some("amphiprion  OCELLARIS".into()),
            category: None,
        },
    ];
    let mut cache = TaxonCache::new();
    cache.record(
        normalize("Amphiprion ocellaris"),
        Ok(taxon_named("Amphiprion ocellaris", Some("clown anemonefish"))),
    );
    cache.record(normalize("Zzz"), Err(LookupError::NotFound));
    let out = diff_critters(&critters, &cache);
    assert_eq!(out.len(), 5);
    let first = out[0].as_ref().unwrap();
    assert_eq!(first.changeset.id, 1);
    assert_eq!(first.changeset.common_name, Some("Clown Anemonefish".to_string()));
    assert_eq!(first.changeset.scientific_name, None);
    assert_eq!(out[1], Err(NameError::Unresolved(ResolveError::MissingSpecies)));
    assert_eq!(out[2], Err(NameError::Unresolved(ResolveError::Lookup(LookupError::NotFound))));
    assert_eq!(out[3], Err(NameError::Unresolved(ResolveError::NotResolved)));
    let last = out[4].as_ref().unwrap();
    assert_eq!(last.changeset.id, 5);
    assert_eq!(last.changeset.common_name, Some("Clown Anemonefish".to_string()));
}

#[test]
fn a_fresh_update_changes_nothing() {
    let update = CritterUpdate::new(9);
    assert_eq!(update, unchanged(9));
    assert!(!update.has_changes());
    assert!(CritterUpdate { category: Some(1), ..unchanged(9) }.has_changes());
}
