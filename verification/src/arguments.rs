//! The program's options, and what follows from them: where its files are,
//! and which overrides apply.
//!
//! Nothing here touches the file system. Where a decision depends on it, the
//! caller is told what to find out (`PathRequest`) and hands the answer back
//! (`PathAnswer`, `OverridesFile`).

use crate::groups::{CritterCategoryOverride, OverrideRule, RuleView};
use vstd::prelude::*;
use vstd::string::StringExecFns;

verus! {

/// Where Lightroom keeps its metadata presets, below the data directory.
pub const LIGHTROOM_DATA: &'static str = "Adobe/Lightroom/Metadata Presets/";

/// Where MacDive keeps its database, below the data directory.
pub const MACDIVE_DATA: &'static str = "MacDive/MacDive.sqlite";

/// Why a path could not be resolved.
#[derive(Clone, Debug, PartialEq, Eq)]
pub enum PathError {
    /// The given path could not be made canonical, for this reason.
    Canonicalize(String),
    /// The user has no data directory.
    DataDir,
    /// Nothing can be read at the path.
    Inaccessible(String),
}

/// A path error as contracts see it.
pub ghost enum PathErrorView {
    Canonicalize(Seq<char>),
    DataDir,
    Inaccessible(Seq<char>),
}

impl DeepView for PathError {
    type V = PathErrorView;

    open spec fn deep_view(&self) -> PathErrorView {
        match self {
            PathError::Canonicalize(reason) => PathErrorView::Canonicalize(reason@),
            PathError::DataDir => PathErrorView::DataDir,
            PathError::Inaccessible(path) => PathErrorView::Inaccessible(path@),
        }
    }
}

impl View for PathError {
    type V = PathErrorView;

    open spec fn view(&self) -> PathErrorView {
        self.deep_view()
    }
}

/// What the caller is to find out about a path.
#[derive(Clone, Debug, PartialEq, Eq)]
pub enum PathRequest {
    /// Make this path canonical.
    Canonical(String),
    /// Join the user's data directory with this relative path.
    InDataDir(String),
}

/// A request as contracts see it.
pub ghost enum PathRequestView {
    Canonical(Seq<char>),
    InDataDir(Seq<char>),
}

impl DeepView for PathRequest {
    type V = PathRequestView;

    open spec fn deep_view(&self) -> PathRequestView {
        match self {
            PathRequest::Canonical(path) => PathRequestView::Canonical(path@),
            PathRequest::InDataDir(path) => PathRequestView::InDataDir(path@),
        }
    }
}

impl View for PathRequest {
    type V = PathRequestView;

    open spec fn view(&self) -> PathRequestView {
        self.deep_view()
    }
}

/// What the caller found out.
#[derive(Clone, Debug, PartialEq, Eq)]
pub enum PathAnswer {
    /// The request led to this path; `accessible` tells whether the file
    /// system has something readable there.
    Located { path: String, accessible: bool },
    /// The request led to no path: the given path could not be made
    /// canonical, for this reason, or there is no data directory.
    Failed { reason: String },
}

/// An answer as contracts see it.
pub ghost enum PathAnswerView {
    Located { path: Seq<char>, accessible: bool },
    Failed { reason: Seq<char> },
}

impl DeepView for PathAnswer {
    type V = PathAnswerView;

    open spec fn deep_view(&self) -> PathAnswerView {
        match self {
            PathAnswer::Located { path, accessible } => PathAnswerView::Located {
                path: path@,
                accessible: *accessible,
            },
            PathAnswer::Failed { reason } => PathAnswerView::Failed { reason: reason@ },
        }
    }
}

impl View for PathAnswer {
    type V = PathAnswerView;

    open spec fn view(&self) -> PathAnswerView {
        self.deep_view()
    }
}

/// What is to be found out for a path option: a given path is made
/// canonical, and without one the default below the data directory is
/// taken.
pub open spec fn request_for(path: Option<Seq<char>>, default: Seq<char>) -> PathRequestView {
    match path {
        Some(p) => PathRequestView::Canonical(p),
        None => PathRequestView::InDataDir(default),
    }
}

/// The path that an option resolves to, given what was found out. A path
/// that was found counts only if it is accessible. Where none was found, a
/// given path could not be made canonical, for the reason that the answer
/// brings, and without a given path the data directory is missing.
pub open spec fn resolution(path: Option<Seq<char>>, answer: PathAnswerView) -> Result<
    Seq<char>,
    PathErrorView,
> {
    match answer {
        PathAnswerView::Located { path: found, accessible } => if accessible {
            Ok(found)
        } else {
            Err(PathErrorView::Inaccessible(found))
        },
        PathAnswerView::Failed { reason } => match path {
            Some(_) => Err(PathErrorView::Canonicalize(reason)),
            None => Err(PathErrorView::DataDir),
        },
    }
}

/// The outcome of a resolution as contracts see it.
pub open spec fn path_view(outcome: Result<String, PathError>) -> Result<Seq<char>, PathErrorView> {
    match outcome {
        Ok(path) => Ok(path@),
        Err(e) => Err(e@),
    }
}

/// An override for the location data of one dive site.
#[derive(Clone, Debug, PartialEq, Eq)]
pub struct LocationOverride {
    pub country: Option<String>,
    pub state: Option<String>,
    pub region: Option<String>,
    pub locality: Option<String>,
}

/// A location override as contracts see it.
pub ghost struct LocationOverrideView {
    pub country: Option<Seq<char>>,
    pub state: Option<Seq<char>>,
    pub region: Option<Seq<char>>,
    pub locality: Option<Seq<char>>,
}

impl DeepView for LocationOverride {
    type V = LocationOverrideView;

    open spec fn deep_view(&self) -> LocationOverrideView {
        LocationOverrideView {
            country: self.country.deep_view(),
            state: self.state.deep_view(),
            region: self.region.deep_view(),
            locality: self.locality.deep_view(),
        }
    }
}

impl View for LocationOverride {
    type V = LocationOverrideView;

    open spec fn view(&self) -> LocationOverrideView {
        self.deep_view()
    }
}

/// A copy of an optional string.
fn duplicate_text(text: &Option<String>) -> (out: Option<String>)
    ensures
        out.deep_view() == text.deep_view(),
{
    match text {
        Some(s) => Some(s.clone()),
        None => None,
    }
}

impl LocationOverride {
    /// A copy of the override.
    pub fn duplicate(&self) -> (out: LocationOverride)
        ensures
            out@ == self@,
    {
        LocationOverride {
            country: duplicate_text(&self.country),
            state: duplicate_text(&self.state),
            region: duplicate_text(&self.region),
            locality: duplicate_text(&self.locality),
        }
    }
}

/// The override for one dive site, under the site's key.
#[derive(Clone, Debug, PartialEq, Eq)]
pub struct LocationEntry {
    pub site: String,
    pub location: LocationOverride,
}

/// A location entry as contracts see it.
pub ghost struct LocationEntryView {
    pub site: Seq<char>,
    pub location: LocationOverrideView,
}

impl DeepView for LocationEntry {
    type V = LocationEntryView;

    open spec fn deep_view(&self) -> LocationEntryView {
        LocationEntryView { site: self.site@, location: self.location@ }
    }
}

impl View for LocationEntry {
    type V = LocationEntryView;

    open spec fn view(&self) -> LocationEntryView {
        self.deep_view()
    }
}

/// The operator's overrides, as read from the overrides file.
#[derive(Clone, Debug, PartialEq, Eq)]
pub struct Overrides {
    /// The location overrides, one entry for each site.
    pub locations: Vec<LocationEntry>,
    /// The override rules for critter categories.
    pub critter_categories: CritterCategoryOverride,
}

/// Overrides as contracts see them.
pub ghost struct OverridesView {
    pub locations: Seq<LocationEntryView>,
    pub rules: Seq<RuleView>,
}

impl DeepView for Overrides {
    type V = OverridesView;

    open spec fn deep_view(&self) -> OverridesView {
        OverridesView {
            locations: self.locations.deep_view(),
            rules: self.critter_categories.rules.deep_view(),
        }
    }
}

impl View for Overrides {
    type V = OverridesView;

    open spec fn view(&self) -> OverridesView {
        self.deep_view()
    }
}

/// No overrides.
pub open spec fn no_overrides() -> OverridesView {
    OverridesView { locations: Seq::empty(), rules: Seq::empty() }
}

/// A copy of the rules.
fn duplicate_rules(rules: &Vec<OverrideRule>) -> (out: Vec<OverrideRule>)
    ensures
        out.deep_view() == rules.deep_view(),
{
    let mut out: Vec<OverrideRule> = Vec::new();
    let mut i: usize = 0;
    while i < rules.len()
        invariant
            i <= rules.len(),
            out.deep_view() == rules.deep_view().take(i as int),
        decreases rules.len() - i,
    {
        let ghost before = out.deep_view();
        out.push(OverrideRule { key: rules[i].key.clone(), group: rules[i].group.clone() });
        assert(out.deep_view() =~= before.push(rules.deep_view()[i as int]));
        i = i + 1;
    }
    out
}

/// Tells whether a later entry has the site of the one at `i`.
fn is_overridden(entries: &Vec<LocationEntry>, i: usize) -> (out: bool)
    requires
        i < entries.len(),
    ensures
        out == overridden(entries.deep_view(), i as int),
{
    let mut j: usize = i + 1;
    while j < entries.len()
        invariant
            i < j <= entries.len(),
            forall|k: int|
                i < k < j ==> (#[trigger] entries.deep_view()[k]).site
                    != entries.deep_view()[i as int].site,
        decreases entries.len() - j,
    {
        if entries[j].site == entries[i].site {
            assert(entries.deep_view()[j as int].site == entries.deep_view()[i as int].site);
            return true;
        }
        j = j + 1;
    }
    false
}

/// The entries that count, copied: one for each site.
fn mapped_locations(entries: &Vec<LocationEntry>) -> (out: Vec<LocationEntry>)
    ensures
        out.deep_view() == one_per_site(entries.deep_view()),
{
    let mut out: Vec<LocationEntry> = Vec::new();
    let mut i: usize = 0;
    while i < entries.len()
        invariant
            i <= entries.len(),
            out.deep_view() == one_per_site_first(entries.deep_view(), i as nat),
        decreases entries.len() - i,
    {
        if !is_overridden(entries, i) {
            let ghost before = out.deep_view();
            out.push(
                LocationEntry {
                    site: entries[i].site.clone(),
                    location: entries[i].location.duplicate(),
                },
            );
            assert(out.deep_view() =~= before.push(entries.deep_view()[i as int]));
        }
        i = i + 1;
    }
    out
}

impl Overrides {
    /// No site occurs twice.
    pub open spec fn wf(&self) -> bool {
        distinct_sites(self@.locations)
    }

    /// No overrides.
    pub fn empty() -> (out: Overrides)
        ensures
            out@ == no_overrides(),
    {
        let out = Overrides {
            locations: Vec::new(),
            critter_categories: CritterCategoryOverride { rules: Vec::new() },
        };
        assert(out@.locations =~= Seq::empty());
        assert(out@.rules =~= Seq::empty());
        out
    }

    /// The overrides as a mapping from sites holds them: with one entry for
    /// each site, the last one given.
    pub fn mapped(&self) -> (out: Overrides)
        ensures
            out@ == as_mapping(self@),
    {
        Overrides {
            locations: mapped_locations(&self.locations),
            critter_categories: CritterCategoryOverride {
                rules: duplicate_rules(&self.critter_categories.rules),
            },
        }
    }
}

/// What reading the overrides file gave.
#[derive(Clone, Debug, PartialEq, Eq)]
pub enum OverridesFile {
    /// No file was read.
    Absent,
    /// The file was read, and this is what it holds.
    Loaded(Overrides),
    /// The file could not be read or understood, for this reason.
    Failed(String),
}

/// A read overrides file as contracts see it.
pub ghost enum OverridesFileView {
    Absent,
    Loaded(OverridesView),
    Failed(Seq<char>),
}

impl DeepView for OverridesFile {
    type V = OverridesFileView;

    open spec fn deep_view(&self) -> OverridesFileView {
        match self {
            OverridesFile::Absent => OverridesFileView::Absent,
            OverridesFile::Loaded(overrides) => OverridesFileView::Loaded(overrides@),
            OverridesFile::Failed(reason) => OverridesFileView::Failed(reason@),
        }
    }
}

impl View for OverridesFile {
    type V = OverridesFileView;

    open spec fn view(&self) -> OverridesFileView {
        self.deep_view()
    }
}

/// Why there are no overrides although a file is named.
#[derive(Clone, Debug, PartialEq, Eq)]
pub enum OverridesError {
    /// The file at `path` could not be read or understood.
    Unreadable { path: String, reason: String },
    /// The file at `path` was not read.
    NotLoaded { path: String },
}

/// An overrides error as contracts see it.
pub ghost enum OverridesErrorView {
    Unreadable { path: Seq<char>, reason: Seq<char> },
    NotLoaded { path: Seq<char> },
}

impl DeepView for OverridesError {
    type V = OverridesErrorView;

    open spec fn deep_view(&self) -> OverridesErrorView {
        match self {
            OverridesError::Unreadable { path, reason } => OverridesErrorView::Unreadable {
                path: path@,
                reason: reason@,
            },
            OverridesError::NotLoaded { path } => OverridesErrorView::NotLoaded { path: path@ },
        }
    }
}

impl View for OverridesError {
    type V = OverridesErrorView;

    open spec fn view(&self) -> OverridesErrorView {
        self.deep_view()
    }
}

/// No site occurs twice among the entries.
pub open spec fn distinct_sites(entries: Seq<LocationEntryView>) -> bool {
    forall|i: int, j: int|
        #![trigger entries[i], entries[j]]
        0 <= i < j < entries.len() ==> entries[i].site != entries[j].site
}

/// A later entry has the site of the one at `i`, which therefore yields to
/// it: the file maps sites to overrides, and of the entries for one site the
/// last one counts.
pub open spec fn overridden(entries: Seq<LocationEntryView>, i: int) -> bool {
    exists|j: int| i < j < entries.len() && (#[trigger] entries[j]).site == entries[i].site
}

/// Those of the first `n` entries that count, in their order.
pub open spec fn one_per_site_first(entries: Seq<LocationEntryView>, n: nat) -> Seq<
    LocationEntryView,
>
    decreases n,
{
    if n == 0 {
        Seq::empty()
    } else {
        let head = one_per_site_first(entries, (n - 1) as nat);
        if overridden(entries, n - 1) {
            head
        } else {
            head.push(entries[n - 1])
        }
    }
}

/// The entries that count: one for each site.
pub open spec fn one_per_site(entries: Seq<LocationEntryView>) -> Seq<LocationEntryView> {
    one_per_site_first(entries, entries.len())
}

/// The overrides as a mapping from sites holds them: with one entry for
/// each site.
pub open spec fn as_mapping(overrides: OverridesView) -> OverridesView {
    OverridesView { locations: one_per_site(overrides.locations), rules: overrides.rules }
}

/// Every entry that counts stems from an entry that no later one overrides,
/// and no two of them share a site.
pub proof fn lemma_one_per_site(entries: Seq<LocationEntryView>, n: nat)
    requires
        n <= entries.len(),
    ensures
        forall|a: int|
            0 <= a < one_per_site_first(entries, n).len() ==> exists|i: int|
                0 <= i < n && !overridden(entries, i) && #[trigger] one_per_site_first(
                    entries,
                    n,
                )[a] == entries[i],
        distinct_sites(one_per_site_first(entries, n)),
    decreases n,
{
    if n > 0 {
        lemma_one_per_site(entries, (n - 1) as nat);
        let head = one_per_site_first(entries, (n - 1) as nat);
        let all = one_per_site_first(entries, n);
        if !overridden(entries, n - 1) {
            assert forall|a: int| 0 <= a < all.len() implies exists|i: int|
                0 <= i < n && !overridden(entries, i) && #[trigger] all[a] == entries[i] by {
                if a < head.len() {
                    let i = choose|i: int|
                        0 <= i < n - 1 && !overridden(entries, i) && head[a] == entries[i];
                    assert(all[a] == entries[i]);
                } else {
                    assert(all[a] == entries[n - 1]);
                }
            }
            assert forall|a: int, b: int|
                #![trigger all[a], all[b]]
                0 <= a < b < all.len() implies all[a].site != all[b].site by {
                if b == head.len() {
                    // An earlier entry with the site of the last one would
                    // be overridden by it.
                    let i = choose|i: int|
                        0 <= i < n - 1 && !overridden(entries, i) && head[a] == entries[i];
                    assert(all[b] == entries[n - 1]);
                    if entries[i].site == entries[n - 1].site {
                        assert(overridden(entries, i));
                    }
                } else {
                    assert(all[a] == head[a] && all[b] == head[b]);
                }
            }
        }
    }
}

/// The overrides that apply: none where no file is named, and else what
/// the named file holds, as a mapping from sites holds it.
pub open spec fn applicable(path: Option<Seq<char>>, file: OverridesFileView) -> Result<
    OverridesView,
    OverridesErrorView,
> {
    match path {
        None => Ok(no_overrides()),
        Some(p) => match file {
            OverridesFileView::Loaded(overrides) => Ok(as_mapping(overrides)),
            OverridesFileView::Failed(reason) => Err(
                OverridesErrorView::Unreadable { path: p, reason },
            ),
            OverridesFileView::Absent => Err(OverridesErrorView::NotLoaded { path: p }),
        },
    }
}

/// The location overrides of the entries, in their order.
pub open spec fn locations_of(entries: Seq<LocationEntryView>) -> Seq<LocationOverrideView> {
    Seq::new(entries.len(), |i: int| entries[i].location)
}

/// The outcome of `Options::overrides` as contracts see it.
pub open spec fn overrides_view(outcome: Result<Overrides, OverridesError>) -> Result<
    OverridesView,
    OverridesErrorView,
> {
    match outcome {
        Ok(overrides) => Ok(overrides@),
        Err(e) => Err(e@),
    }
}

/// The options that the program is started with.
#[derive(Clone, Debug, PartialEq, Eq)]
pub struct Options {
    /// How talkative the program is.
    verbose: u8,
    /// The path of the MacDive database.
    database: Option<String>,
    /// The path of the Lightroom settings directory.
    lightroom: Option<String>,
    /// The path of the overrides file.
    pub overrides: Option<String>,
    /// The key for reverse geocoding.
    pub api_key: Option<String>,
    /// Whether existing files are overwritten.
    pub force: bool,
}

/// Options as contracts see them.
pub ghost struct OptionsView {
    pub verbose: u8,
    pub database: Option<Seq<char>>,
    pub lightroom: Option<Seq<char>>,
    pub overrides: Option<Seq<char>>,
    pub api_key: Option<Seq<char>>,
    pub force: bool,
}

impl View for Options {
    type V = OptionsView;

    closed spec fn view(&self) -> OptionsView {
        OptionsView {
            verbose: self.verbose,
            database: self.database.deep_view(),
            lightroom: self.lightroom.deep_view(),
            overrides: self.overrides.deep_view(),
            api_key: self.api_key.deep_view(),
            force: self.force,
        }
    }
}

impl Options {
    /// Options with the given values.
    pub fn new(
        verbose: u8,
        database: Option<String>,
        lightroom: Option<String>,
        overrides: Option<String>,
        api_key: Option<String>,
        force: bool,
    ) -> (out: Options)
        ensures
            out@ == (OptionsView {
                verbose,
                database: database.deep_view(),
                lightroom: lightroom.deep_view(),
                overrides: overrides.deep_view(),
                api_key: api_key.deep_view(),
                force,
            }),
    {
        Options { verbose, database, lightroom, overrides, api_key, force }
    }

    /// How talkative the program is.
    pub fn verbose(&self) -> (out: u8)
        ensures
            out == self@.verbose,
    {
        self.verbose
    }

    /// What is to be found out for a path option.
    fn path_request(path: &Option<String>, data_directory: &str) -> (out: PathRequest)
        ensures
            out@ == request_for(path.deep_view(), data_directory@),
    {
        match path {
            Some(p) => PathRequest::Canonical(p.clone()),
            None => PathRequest::InDataDir(String::from_str(data_directory)),
        }
    }

    /// The path that an option resolves to, given what was found out.
    fn resolve_path(path: &Option<String>, answer: &PathAnswer) -> (out: Result<String, PathError>)
        ensures
            path_view(out) == resolution(path.deep_view(), answer@),
    {
        match answer {
            PathAnswer::Located { path: found, accessible } => {
                if *accessible {
                    Ok(found.clone())
                } else {
                    Err(PathError::Inaccessible(found.clone()))
                }
            },
            PathAnswer::Failed { reason } => match path {
                Some(_) => Err(PathError::Canonicalize(reason.clone())),
                None => Err(PathError::DataDir),
            },
        }
    }

    /// What is to be found out to locate the Lightroom metadata presets.
    pub fn lightroom_request(&self) -> (out: PathRequest)
        ensures
            out@ == request_for(self@.lightroom, LIGHTROOM_DATA@),
    {
        Options::path_request(&self.lightroom, LIGHTROOM_DATA)
    }

    /// What is to be found out to locate the MacDive database.
    pub fn macdive_request(&self) -> (out: PathRequest)
        ensures
            out@ == request_for(self@.database, MACDIVE_DATA@),
    {
        Options::path_request(&self.database, MACDIVE_DATA)
    }

    /// The directory of the Lightroom metadata presets, given the answer to
    /// `lightroom_request`.
    pub fn lightroom_metadata(&self, answer: &PathAnswer) -> (out: Result<String, PathError>)
        ensures
            path_view(out) == resolution(self@.lightroom, answer@),
    {
        Options::resolve_path(&self.lightroom, answer)
    }

    /// The MacDive database, given the answer to `macdive_request`.
    pub fn macdive_database(&self, answer: &PathAnswer) -> (out: Result<String, PathError>)
        ensures
            path_view(out) == resolution(self@.database, answer@),
    {
        Options::resolve_path(&self.database, answer)
    }

    /// The overrides that apply, given what reading the overrides file
    /// gave. Without a file there are none, whatever `file` says. Of the
    /// entries for one site the last one counts.
    pub fn overrides(&self, file: &OverridesFile) -> (out: Result<Overrides, OverridesError>)
        ensures
            overrides_view(out) == applicable(self@.overrides, file@),
            out matches Ok(overrides) ==> overrides.wf(),
    {
        match &self.overrides {
            None => Ok(Overrides::empty()),
            Some(path) => match file {
                OverridesFile::Loaded(overrides) => {
                    proof {
                        lemma_one_per_site(
                            overrides@.locations,
                            overrides@.locations.len(),
                        );
                    }
                    Ok(overrides.mapped())
                },
                OverridesFile::Failed(reason) => Err(
                    OverridesError::Unreadable { path: path.clone(), reason: reason.clone() },
                ),
                OverridesFile::Absent => Err(OverridesError::NotLoaded { path: path.clone() }),
            },
        }
    }

    /// The location overrides that apply, in the order of the file: none
    /// where there are no overrides or they could not be had.
    pub fn location_overrides(&self, file: &OverridesFile) -> (out: Vec<LocationOverride>)
        ensures
            out.deep_view() == match applicable(self@.overrides, file@) {
                Ok(overrides) => locations_of(overrides.locations),
                Err(_) => Seq::empty(),
            },
    {
        match self.overrides(file) {
            Ok(overrides) => {
                let mut out: Vec<LocationOverride> = Vec::new();
                let mut i: usize = 0;
                while i < overrides.locations.len()
                    invariant
                        i <= overrides.locations.len(),
                        out.deep_view() == locations_of(overrides.locations.deep_view()).take(
                            i as int,
                        ),
                    decreases overrides.locations.len() - i,
                {
                    let ghost before = out.deep_view();
                    out.push(overrides.locations[i].location.duplicate());
                    assert(out.deep_view() =~= before.push(
                        locations_of(overrides.locations.deep_view())[i as int],
                    ));
                    i = i + 1;
                }
                out
            },
            Err(_) => {
                let out: Vec<LocationOverride> = Vec::new();
                out
            },
        }
    }

    /// The override rules for critter categories that apply: none where
    /// there are no overrides or they could not be had.
    pub fn critter_categories_overrides(&self, file: &OverridesFile) -> (out:
        CritterCategoryOverride)
        ensures
            out.rules.deep_view() == match applicable(self@.overrides, file@) {
                Ok(overrides) => overrides.rules,
                Err(_) => Seq::empty(),
            },
    {
        match self.overrides(file) {
            Ok(overrides) => overrides.critter_categories,
            Err(_) => {
                let out = CritterCategoryOverride { rules: Vec::new() };
                out
            },
        }
    }
}

} // verus!
