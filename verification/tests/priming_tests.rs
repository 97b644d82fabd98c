use macdive_exporter::catalog::Critter;
use macdive_exporter::plan::{LookupError, ResolveError};
use macdive_exporter::priming::{normalize_all, species_of, Lookup, Primer};
use macdive_exporter::taxonomy::{Taxon, TaxonCache};

fn record(name: &str) -> Taxon {
    Taxon { scientific_name: name.to_string(), preferred_common_name: None, group: None }
}

fn names(list: &[&str]) -> Vec<String> {
    list.iter().map(|s| s.to_string()).collect()
}

fn with_species(id: i64, species: Option<&str>) -> Critter {
    Critter { id, name: None, species: species.map(|s| s.to_string()), category: None }
}

fn drain(primer: &mut Primer) -> Vec<String> {
    let mut issued = Vec::new();
    while let Some(lookup) = primer.next_lookup() {
        issued.push(lookup.key);
    }
    issued
}

fn next_key(primer: &mut Primer) -> Option<String> {
    primer.next_lookup().map(|lookup| lookup.key)
}

#[test]
fn species_are_collected_in_catalog_order() {
    let critters = vec![
        with_species(1, Some("B")),
        with_species(2, None),
        with_species(3, Some("A")),
        with_species(4, Some("B")),
    ];
    assert_eq!(species_of(&critters), names(&["B", "A", "B"]));
    assert_eq!(species_of(&Vec::new()), Vec::<String>::new());
}

#[test]
fn keys_are_taken_name_by_name() {
    assert_eq!(normalize_all(&names(&["Aa  B", "c"])), names(&["aa b", "c"]));
}

#[test]
fn shared_species_is_looked_up_exactly_once() {
    for budget in 1..6usize {
        for n in 1..20usize {
            let list: Vec<String> = (0..n).map(|_| "Amphiprion ocellaris".to_string()).collect();
            let mut primer = Primer::new(TaxonCache::new(), &list, budget);
            let mut lookups = 0;
            while !primer.is_done() {
                match primer.next_lookup() {
                    Some(Lookup { key, name }) => {
                        lookups += 1;
                        assert_eq!(key, "amphiprion ocellaris");
                        assert_eq!(name, "Amphiprion ocellaris");
                        assert!(primer.complete(&key, Ok(record("Amphiprion ocellaris"))));
                    }
                    None => panic!("a lookup is left and none is handed out"),
                }
            }
            assert_eq!(lookups, 1);
        }
    }
}

#[test]
fn names_with_one_key_count_once() {
    let list = names(&["Sea  Slug", "sea slug", "SEA SLUG ", "Eel"]);
    let mut primer = Primer::new(TaxonCache::new(), &list, 10);
    assert_eq!(drain(&mut primer), names(&["sea slug", "eel"]));
}

#[test]
fn the_budget_bounds_the_running_lookups() {
    let list = names(&["a", "b", "c", "d", "e"]);
    let mut primer = Primer::new(TaxonCache::new(), &list, 2);
    assert_eq!(primer.running(), 0);
    assert_eq!(next_key(&mut primer), Some("a".to_string()));
    assert_eq!(next_key(&mut primer), Some("b".to_string()));
    assert_eq!(next_key(&mut primer), None);
    assert_eq!(primer.running(), 2);
    assert!(!primer.is_done());
    assert!(primer.complete(&"b".to_string(), Ok(record("b"))));
    assert_eq!(primer.running(), 1);
    assert_eq!(next_key(&mut primer), Some("c".to_string()));
    assert_eq!(next_key(&mut primer), None);
    assert!(primer.complete(&"a".to_string(), Err(LookupError::Service)));
    assert!(primer.complete(&"c".to_string(), Ok(record("c"))));
    assert_eq!(drain(&mut primer), names(&["d", "e"]));
    assert!(primer.complete(&"e".to_string(), Ok(record("e"))));
    assert!(!primer.is_done());
    assert!(primer.complete(&"d".to_string(), Err(LookupError::NotFound)));
    assert!(primer.is_done());
    let cache = primer.into_cache();
    assert_eq!(cache.resolve("A"), Err(ResolveError::Lookup(LookupError::Service)));
    assert_eq!(cache.resolve("b"), Ok(&record("b")));
    assert_eq!(cache.resolve("D"), Err(ResolveError::Lookup(LookupError::NotFound)));
}

#[test]
fn a_budget_of_nothing_hands_out_nothing() {
    let mut primer = Primer::new(TaxonCache::new(), &names(&["a"]), 0);
    assert_eq!(next_key(&mut primer), None);
    assert!(!primer.is_done());
    let mut idle = Primer::new(TaxonCache::new(), &Vec::new(), 0);
    assert_eq!(next_key(&mut idle), None);
    assert!(idle.is_done());
}

#[test]
fn answers_that_were_not_asked_for_do_not_count() {
    let mut primer = Primer::new(TaxonCache::new(), &names(&["a", "b"]), 1);
    assert!(!primer.complete(&"a".to_string(), Ok(record("a"))));
    assert_eq!(next_key(&mut primer), Some("a".to_string()));
    assert!(!primer.complete(&"b".to_string(), Ok(record("b"))));
    assert!(primer.complete(&"a".to_string(), Ok(record("a"))));
    assert!(!primer.complete(&"a".to_string(), Ok(record("again"))));
    assert_eq!(next_key(&mut primer), Some("b".to_string()));
    assert!(primer.complete(&"b".to_string(), Ok(record("b"))));
    assert!(primer.is_done());
    let cache = primer.into_cache();
    assert_eq!(cache.resolve("a"), Ok(&record("a")));
}

#[test]
fn what_the_cache_holds_is_not_looked_up_again() {
    let mut cache = TaxonCache::new();
    assert!(cache.record("a".to_string(), Err(LookupError::NotFound)));
    let mut primer = Primer::new(cache, &names(&["A", "b", "a"]), 4);
    assert_eq!(drain(&mut primer), names(&["b"]));
    assert!(primer.complete(&"b".to_string(), Ok(record("b"))));
    assert!(primer.is_done());
    let cache = primer.into_cache();
    assert_eq!(cache.resolve("a"), Err(ResolveError::Lookup(LookupError::NotFound)));
}

#[test]
fn with_keys_takes_keys_as_they_are() {
    let mut primer = Primer::with_keys(TaxonCache::new(), &names(&["A", "a", "A"]), 3);
    assert_eq!(drain(&mut primer), names(&["A", "a"]));
}

#[test]
fn a_species_is_asked_for_by_the_first_of_its_names() {
    let list = names(&["Sea  Slug", "sea slug", "EEL", "SEA SLUG ", "Eel"]);
    let mut primer = Primer::new(TaxonCache::new(), &list, 10);
    assert_eq!(
        primer.next_lookup(),
        Some(Lookup { key: "sea slug".to_string(), name: "Sea  Slug".to_string() })
    );
    assert_eq!(
        primer.next_lookup(),
        Some(Lookup { key: "eel".to_string(), name: "EEL".to_string() })
    );
    assert_eq!(primer.next_lookup(), None);
}

#[test]
fn a_name_whose_species_is_cached_is_not_the_one_asked_for() {
    let mut cache = TaxonCache::new();
    assert!(cache.record("eel".to_string(), Ok(record("Eel"))));
    let list = names(&["EEL", "Ray ", "ray"]);
    let mut primer = Primer::new(cache, &list, 10);
    assert_eq!(
        primer.next_lookup(),
        Some(Lookup { key: "ray".to_string(), name: "Ray ".to_string() })
    );
    assert_eq!(primer.next_lookup(), None);
}

#[test]
fn a_key_is_asked_for_as_it_is() {
    let mut primer = Primer::with_keys(TaxonCache::new(), &names(&["B", "a", "B"]), 3);
    assert_eq!(
        primer.next_lookup(),
        Some(Lookup { key: "B".to_string(), name: "B".to_string() })
    );
    assert_eq!(
        primer.next_lookup(),
        Some(Lookup { key: "a".to_string(), name: "a".to_string() })
    );
    assert_eq!(primer.next_lookup(), None);
}
