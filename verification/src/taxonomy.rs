//! Taxonomy records and the cache of lookups.
//!
//! The cache maps the key of a species name to what the lookup of that
//! species gave, a record or a failure. Whatever is recorded first for a key
//! stays: a species is looked up at most once, and a failure is not retried.

use crate::keys::{is_first_at, lemma_position, lemma_position_found, position};
use crate::plan::{LookupError, ResolveError};
use crate::text::{key_of, normalize};
use vstd::prelude::*;

verus! {

/// What the taxonomy knows of a species.
#[derive(Clone, Debug, PartialEq, Eq)]
pub struct Taxon {
    /// The accepted scientific name.
    pub scientific_name: String,
    /// The preferred common name, if there is one.
    pub preferred_common_name: Option<String>,
    /// The group that the service files the species under, if it names one.
    pub group: Option<String>,
}

/// A taxon as contracts see it.
pub ghost struct TaxonView {
    pub scientific_name: Seq<char>,
    pub preferred_common_name: Option<Seq<char>>,
    pub group: Option<Seq<char>>,
}

impl DeepView for Taxon {
    type V = TaxonView;

    open spec fn deep_view(&self) -> TaxonView {
        TaxonView {
            scientific_name: self.scientific_name@,
            preferred_common_name: self.preferred_common_name.deep_view(),
            group: self.group.deep_view(),
        }
    }
}

impl View for Taxon {
    type V = TaxonView;

    open spec fn view(&self) -> TaxonView {
        self.deep_view()
    }
}

/// A record as the service gives it: every field may be missing.
#[derive(Clone, Debug, PartialEq, Eq)]
pub struct TaxonRecord {
    pub name: Option<String>,
    pub preferred_common_name: Option<String>,
    pub group: Option<String>,
}

/// A record as contracts see it.
pub ghost struct TaxonRecordView {
    pub name: Option<Seq<char>>,
    pub preferred_common_name: Option<Seq<char>>,
    pub group: Option<Seq<char>>,
}

impl DeepView for TaxonRecord {
    type V = TaxonRecordView;

    open spec fn deep_view(&self) -> TaxonRecordView {
        TaxonRecordView {
            name: self.name.deep_view(),
            preferred_common_name: self.preferred_common_name.deep_view(),
            group: self.group.deep_view(),
        }
    }
}

impl View for TaxonRecord {
    type V = TaxonRecordView;

    open spec fn view(&self) -> TaxonRecordView {
        self.deep_view()
    }
}

/// What a lookup gives when the service has answered: the taxon of the
/// first record that matches. Where nothing matches, or the record bears no
/// scientific name, the species is not found.
pub open spec fn answered(found: Option<TaxonRecordView>) -> Result<TaxonView, LookupError> {
    match found {
        Some(record) => match record.name {
            Some(name) => Ok(
                TaxonView {
                    scientific_name: name,
                    preferred_common_name: record.preferred_common_name,
                    group: record.group,
                },
            ),
            None => Err(LookupError::NotFound),
        },
        None => Err(LookupError::NotFound),
    }
}

/// The outcome of a lookup that the service has answered: see `answered`.
pub fn taxon_of(found: Option<TaxonRecord>) -> (out: Result<Taxon, LookupError>)
    ensures
        outcome_view(out) == answered(found.deep_view()),
{
    match found {
        Some(record) => match record.name {
            Some(name) => Ok(
                Taxon {
                    scientific_name: name,
                    preferred_common_name: record.preferred_common_name,
                    group: record.group,
                },
            ),
            None => Err(LookupError::NotFound),
        },
        None => Err(LookupError::NotFound),
    }
}

/// The outcome of a lookup as contracts see it.
pub open spec fn outcome_view(outcome: Result<Taxon, LookupError>) -> Result<
    TaxonView,
    LookupError,
> {
    match outcome {
        Ok(taxon) => Ok(taxon@),
        Err(e) => Err(e),
    }
}

/// What a read of the cache under `key` gives.
pub open spec fn resolved(cache: Map<Seq<char>, Result<TaxonView, LookupError>>, key: Seq<char>)
    -> Result<TaxonView, ResolveError> {
    if cache.contains_key(key) {
        match cache[key] {
            Ok(taxon) => Ok(taxon),
            Err(e) => Err(ResolveError::Lookup(e)),
        }
    } else {
        Err(ResolveError::NotResolved)
    }
}

/// One key of the cache and what its lookup gave.
#[derive(Debug, PartialEq, Eq)]
struct CacheEntry {
    key: String,
    outcome: Result<Taxon, LookupError>,
}

/// The cache of lookups of one run.
#[derive(Debug, PartialEq, Eq)]
pub struct TaxonCache {
    entries: Vec<CacheEntry>,
}

impl View for TaxonCache {
    type V = Map<Seq<char>, Result<TaxonView, LookupError>>;

    closed spec fn view(&self) -> Map<Seq<char>, Result<TaxonView, LookupError>> {
        Map::new(
            |key: Seq<char>| position(self.keys(), key) is Some,
            |key: Seq<char>|
                outcome_view(self.entries@[position(self.keys(), key)->Some_0].outcome),
        )
    }
}

impl TaxonCache {
    /// The keys in the order in which they were recorded.
    closed spec fn keys(&self) -> Seq<Seq<char>> {
        Seq::new(self.entries@.len(), |i: int| self.entries@[i].key@)
    }

    /// A cache that holds nothing.
    pub fn new() -> (out: TaxonCache)
        ensures
            out@ == Map::<Seq<char>, Result<TaxonView, LookupError>>::empty(),
    {
        let out = TaxonCache { entries: Vec::new() };
        proof {
            assert forall|key: Seq<char>| !out@.contains_key(key) by {}
        }
        out
    }

    /// The place of `key` among the entries.
    fn find(&self, key: &String) -> (out: Option<usize>)
        ensures
            match out {
                Some(i) => i < self.entries.len() && position(self.keys(), key@) == Some(i as int),
                None => position(self.keys(), key@) is None,
            },
    {
        let mut i: usize = 0;
        while i < self.entries.len()
            invariant
                i <= self.entries.len(),
                forall|j: int| 0 <= j < i ==> #[trigger] self.keys()[j] != key@,
            decreases self.entries.len() - i,
        {
            if self.entries[i].key == *key {
                proof {
                    lemma_position(self.keys(), key@, i as int);
                }
                return Some(i);
            }
            i = i + 1;
        }
        None
    }

    /// Tells whether a lookup is recorded under `key`.
    pub fn contains(&self, key: &String) -> (out: bool)
        ensures
            out == self@.contains_key(key@),
    {
        self.find(key).is_some()
    }

    /// What is recorded under `key`.
    pub fn get(&self, key: &String) -> (out: Option<&Result<Taxon, LookupError>>)
        ensures
            match out {
                Some(outcome) => self@.contains_key(key@) && self@[key@] == outcome_view(*outcome),
                None => !self@.contains_key(key@),
            },
    {
        match self.find(key) {
            Some(i) => Some(&self.entries[i].outcome),
            None => None,
        }
    }

    /// Records the outcome of a lookup, unless one is recorded under that
    /// key already: then the cache stays as it is. Tells whether it recorded.
    pub fn record(&mut self, key: String, outcome: Result<Taxon, LookupError>) -> (recorded: bool)
        ensures
            recorded == !old(self)@.contains_key(key@),
            final(self)@ == if recorded {
                old(self)@.insert(key@, outcome_view(outcome))
            } else {
                old(self)@
            },
    {
        if self.find(&key).is_some() {
            return false;
        }
        let ghost before = self.keys();
        let ghost added = key@;
        self.entries.push(CacheEntry { key, outcome });
        proof {
            let after = self.keys();
            assert(after =~= before.push(added));
            lemma_position_found(before, added);
            assert(is_first_at(after, added, before.len() as int)) by {
                assert forall|j: int| 0 <= j < before.len() implies #[trigger] after[j]
                    != added by {}
            }
            assert forall|k: Seq<char>| k != added implies position(after, k) == position(
                before,
                k,
            ) by {
                lemma_position_found(before, k);
                match position(before, k) {
                    Some(i) => {
                        assert(is_first_at(after, k, i)) by {
                            assert forall|j: int| 0 <= j < i implies #[trigger] after[j] != k by {}
                        }
                    },
                    None => {
                    },
                }
            }
        }
        true
    }

    /// Reads the cache for a species by its name: the record, or why there
    /// is none.
    pub fn resolve(&self, species: &str) -> (out: Result<&Taxon, ResolveError>)
        ensures
            match out {
                Ok(taxon) => resolved(self@, key_of(species@)) == Ok::<TaxonView, ResolveError>(
                    taxon@,
                ),
                Err(e) => resolved(self@, key_of(species@)) == Err::<TaxonView, ResolveError>(e),
            },
    {
        let key = normalize(species);
        self.resolve_key(&key)
    }

    /// Reads the cache under a key: the record, or why there is none.
    pub fn resolve_key(&self, key: &String) -> (out: Result<&Taxon, ResolveError>)
        ensures
            match out {
                Ok(taxon) => resolved(self@, key@) == Ok::<TaxonView, ResolveError>(taxon@),
                Err(e) => resolved(self@, key@) == Err::<TaxonView, ResolveError>(e),
            },
    {
        match self.get(key) {
            Some(Ok(taxon)) => Ok(taxon),
            Some(Err(e)) => Err(ResolveError::Lookup(*e)),
            None => Err(ResolveError::NotResolved),
        }
    }
}

} // verus!
