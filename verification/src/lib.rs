//! Reconciles the critters of a MacDive catalog with the taxonomy of
//! iNaturalist.
//!
//! The library decides and computes; it reads no file and asks no service.
//! Its caller reads the catalog, performs the lookups that `priming` hands
//! out, and carries out the plan that `critters` computes.
//!
//! - `text`: white space, keys of names, and the case conversions.
//! - `catalog`, `taxonomy`, `groups`: critters and categories, taxonomy
//!   records and their cache, group names and the classifier.
//! - `priming`: which species are looked up, each once, within a budget.
//! - `ledger`, `reconcile`, `critters`: the model of a reconciliation run,
//!   the reconciler, and the run over a catalog.
//! - `laws`, `after`: what holds of every run, and of a second run once
//!   the plan of the first has been carried out.
//! - `names`, `macdive`: comparing names, and the statement that writes them
//!   to the database.
//! - `arguments`: the program's options.

pub mod after;
pub mod arguments;
pub mod catalog;
pub mod critters;
pub mod groups;
pub mod keys;
pub mod laws;
pub mod ledger;
pub mod macdive;
pub mod names;
pub mod plan;
pub mod priming;
pub mod reconcile;
pub mod taxonomy;
pub mod text;
