//! The local catalog: critters and the categories they are filed under.

use vstd::prelude::*;

verus! {

/// A catalog record of an observed organism.
#[derive(Clone, Debug, PartialEq, Eq)]
pub struct Critter {
    /// The local identifier.
    pub id: i64,
    /// The display name.
    pub name: Option<String>,
    /// The scientific name, by which the taxonomy is asked.
    pub species: Option<String>,
    /// The identifier of the category the critter is filed under.
    pub category: Option<i64>,
}

/// A critter as contracts see it.
pub ghost struct CritterView {
    pub id: i64,
    pub name: Option<Seq<char>>,
    pub species: Option<Seq<char>>,
    pub category: Option<i64>,
}

impl DeepView for Critter {
    type V = CritterView;

    open spec fn deep_view(&self) -> CritterView {
        CritterView {
            id: self.id,
            name: self.name.deep_view(),
            species: self.species.deep_view(),
            category: self.category,
        }
    }
}

impl View for Critter {
    type V = CritterView;

    open spec fn view(&self) -> CritterView {
        self.deep_view()
    }
}

/// A local grouping label.
#[derive(Clone, Debug, PartialEq, Eq)]
pub struct CritterCategory {
    /// The local identifier.
    pub id: i64,
    /// The label. A category without one takes no part in matching.
    pub name: Option<String>,
}

/// A category as contracts see it.
pub ghost struct CategoryView {
    pub id: i64,
    pub name: Option<Seq<char>>,
}

impl DeepView for CritterCategory {
    type V = CategoryView;

    open spec fn deep_view(&self) -> CategoryView {
        CategoryView { id: self.id, name: self.name.deep_view() }
    }
}

impl View for CritterCategory {
    type V = CategoryView;

    open spec fn view(&self) -> CategoryView {
        self.deep_view()
    }
}

} // verus!
