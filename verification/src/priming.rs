//! Priming the cache: which species are looked up, and how many lookups run
//! at a time.
//!
//! The lookups themselves are made by the caller. The primer decides: it
//! hands out the next key while fewer lookups than its budget are running,
//! and takes the answers in whatever order they arrive.

use crate::catalog::Critter;
use crate::keys::{find, lemma_position_found, position};
use crate::plan::LookupError;
use crate::taxonomy::{outcome_view, Taxon, TaxonCache, TaxonView};
use crate::text::{key_of, normalize};
use vstd::prelude::*;

verus! {

/// How many lookups run at a time: few enough to respect the limits of the
/// taxonomy service.
pub const WORKER_BUDGET: usize = 4;

/// The cache as contracts see it.
pub type CacheView = Map<Seq<char>, Result<TaxonView, LookupError>>;

/// The keys that have to be looked up for the first `n` of `keys`: each key
/// once, in the order of its first mention, without those that the cache
/// holds already.
pub open spec fn pending_first(keys: Seq<Seq<char>>, cached: Set<Seq<char>>, n: nat) -> Seq<
    Seq<char>,
>
    decreases n,
{
    if n == 0 {
        Seq::empty()
    } else {
        let head = pending_first(keys, cached, (n - 1) as nat);
        let key = keys[n - 1];
        if cached.contains(key) || head.contains(key) {
            head
        } else {
            head.push(key)
        }
    }
}

/// The keys that have to be looked up for `keys`.
pub open spec fn pending(keys: Seq<Seq<char>>, cached: Set<Seq<char>>) -> Seq<Seq<char>> {
    pending_first(keys, cached, keys.len())
}

/// The names to ask the service for the keys of `pending_first`, in the same
/// order: for each key the name that comes with its first mention.
pub open spec fn asked_first(
    keys: Seq<Seq<char>>,
    names: Seq<Seq<char>>,
    cached: Set<Seq<char>>,
    n: nat,
) -> Seq<Seq<char>>
    decreases n,
{
    if n == 0 {
        Seq::empty()
    } else {
        let head = asked_first(keys, names, cached, (n - 1) as nat);
        let key = keys[n - 1];
        if cached.contains(key) || pending_first(keys, cached, (n - 1) as nat).contains(key) {
            head
        } else {
            head.push(names[n - 1])
        }
    }
}

/// The names to ask the service for the keys of `pending`.
pub open spec fn asked(keys: Seq<Seq<char>>, names: Seq<Seq<char>>, cached: Set<Seq<char>>)
    -> Seq<Seq<char>> {
    asked_first(keys, names, cached, keys.len())
}

/// The keys of the names.
pub open spec fn keys_of(names: Seq<Seq<char>>) -> Seq<Seq<char>> {
    Seq::new(names.len(), |i: int| key_of(names[i]))
}

/// The species names of the first `n` critters, in catalog order, one for
/// each critter that has one.
pub open spec fn species_first(critters: Seq<crate::catalog::CritterView>, n: nat) -> Seq<
    Seq<char>,
>
    decreases n,
{
    if n == 0 {
        Seq::empty()
    } else {
        let head = species_first(critters, (n - 1) as nat);
        match critters[n - 1].species {
            Some(name) => head.push(name),
            None => head,
        }
    }
}

/// The state of a priming pass.
pub ghost struct PrimerView {
    /// What has been recorded so far.
    pub cache: CacheView,
    /// The keys to look up, each once.
    pub plan: Seq<Seq<char>>,
    /// The name to ask the service for each key of the plan.
    pub names: Seq<Seq<char>>,
    /// How many keys of the plan have been handed out.
    pub issued: nat,
    /// The keys handed out and not answered yet.
    pub in_flight: Seq<Seq<char>>,
    /// How many lookups may run at a time.
    pub budget: nat,
}

/// Another lookup may start: one is left, and the budget is not used up.
pub open spec fn can_issue(v: PrimerView) -> bool {
    v.in_flight.len() < v.budget && v.issued < v.plan.len()
}

/// The state after the next key has been handed out.
pub open spec fn issue(v: PrimerView) -> PrimerView {
    PrimerView { issued: v.issued + 1, in_flight: v.in_flight.push(v.plan[v.issued as int]), ..v }
}

/// The state after the answer for `key` has arrived. An answer for a key
/// that is not in flight changes nothing. An answer for a key that the
/// cache already holds frees the slot and leaves the cache as it is.
pub open spec fn answer(v: PrimerView, key: Seq<char>, outcome: Result<TaxonView, LookupError>)
    -> PrimerView {
    match position(v.in_flight, key) {
        Some(q) => PrimerView {
            in_flight: v.in_flight.remove(q),
            cache: if v.cache.contains_key(key) {
                v.cache
            } else {
                v.cache.insert(key, outcome)
            },
            ..v
        },
        None => v,
    }
}

/// Every key has been handed out and answered.
pub open spec fn done(v: PrimerView) -> bool {
    v.issued == v.plan.len() && v.in_flight.len() == 0
}

/// The keys handed out so far.
pub open spec fn issued_keys(v: PrimerView) -> Seq<Seq<char>> {
    v.plan.take(v.issued as int)
}

/// The primer is in order: no more lookups are running than the budget
/// allows, no key stands twice in its plan, and every key that was handed
/// out is in flight or recorded.
pub open spec fn in_order(v: PrimerView) -> bool {
    &&& v.issued <= v.plan.len()
    &&& v.names.len() == v.plan.len()
    &&& v.in_flight.len() <= v.budget
    &&& v.plan.no_duplicates()
    &&& forall|i: int|
        0 <= i < v.issued ==> v.in_flight.contains(#[trigger] v.plan[i]) || v.cache.contains_key(
            v.plan[i],
        )
}

/// The plan of lookups names no key twice, names only keys that were asked
/// for and that the cache lacks, and names every such key.
pub proof fn lemma_pending(keys: Seq<Seq<char>>, cached: Set<Seq<char>>, n: nat)
    requires
        n <= keys.len(),
    ensures
        pending_first(keys, cached, n).no_duplicates(),
        forall|key: Seq<char>|
            #[trigger] pending_first(keys, cached, n).contains(key) <==> keys.take(
                n as int,
            ).contains(key) && !cached.contains(key),
    decreases n,
{
    let all = pending_first(keys, cached, n);
    if n == 0 {
        assert forall|key: Seq<char>| !keys.take(0).contains(key) by {}
    } else {
        let head = pending_first(keys, cached, (n - 1) as nat);
        let last = keys[n - 1];
        lemma_pending(keys, cached, (n - 1) as nat);
        let longer = keys.take(n as int);
        assert forall|key: Seq<char>| #[trigger]
            all.contains(key) <==> longer.contains(key) && !cached.contains(key) by {
            assert(longer[n - 1] == last);
            if head.contains(key) {
                let i = choose|i: int| 0 <= i < head.len() && head[i] == key;
                assert(all[i] == key);
            }
            if all != head {
                assert(all[head.len() as int] == last);
            }
        }
        if all != head {
            assert forall|i: int, j: int|
                0 <= i < all.len() && 0 <= j < all.len() && i != j implies all[i] != all[j] by {}
        }
    }
}

/// The name asked for a key is the name of the key's first mention.
pub proof fn lemma_asked(
    keys: Seq<Seq<char>>,
    names: Seq<Seq<char>>,
    cached: Set<Seq<char>>,
    n: nat,
)
    requires
        n <= keys.len(),
        names.len() == keys.len(),
    ensures
        asked_first(keys, names, cached, n).len() == pending_first(keys, cached, n).len(),
        forall|i: int|
            0 <= i < pending_first(keys, cached, n).len() ==> exists|j: int|
                0 <= j < n && keys[j] == #[trigger] pending_first(keys, cached, n)[i] && names[j]
                    == asked_first(keys, names, cached, n)[i] && !keys.take(j).contains(keys[j]),
    decreases n,
{
    if n > 0 {
        lemma_asked(keys, names, cached, (n - 1) as nat);
        lemma_pending(keys, cached, (n - 1) as nat);
        let plan = pending_first(keys, cached, n);
        let head = pending_first(keys, cached, (n - 1) as nat);
        let all = asked_first(keys, names, cached, n);
        let before = asked_first(keys, names, cached, (n - 1) as nat);
        assert forall|i: int| 0 <= i < plan.len() implies exists|j: int|
            0 <= j < n && keys[j] == #[trigger] plan[i] && names[j] == all[i] && !keys.take(
                j,
            ).contains(keys[j]) by {
            if i < head.len() {
                let j = choose|j: int|
                    0 <= j < n - 1 && keys[j] == head[i] && names[j] == before[i] && !keys.take(
                        j,
                    ).contains(keys[j]);
                assert(keys[j] == plan[i] && names[j] == all[i]);
            } else {
                // The key is new to the plan, so no earlier key is the same.
                assert(plan[i] == keys[n - 1] && all[i] == names[n - 1]);
                assert(!head.contains(keys[n - 1]));
                assert(!keys.take(n - 1).contains(keys[n - 1]));
            }
        }
    }
}

/// Asked by its key, a key is asked for as it is.
pub proof fn lemma_asked_keys(keys: Seq<Seq<char>>, cached: Set<Seq<char>>, n: nat)
    requires
        n <= keys.len(),
    ensures
        asked_first(keys, keys, cached, n) == pending_first(keys, cached, n),
    decreases n,
{
    if n > 0 {
        lemma_asked_keys(keys, cached, (n - 1) as nat);
    }
}

/// At most once: however many critters share a species, its key stands in
/// the plan of lookups exactly once if the cache lacks it, and not at all if
/// the cache holds it.
pub proof fn lemma_lookup_once(names: Seq<Seq<char>>, cached: Set<Seq<char>>, name: Seq<char>)
    requires
        names.contains(name),
    ensures
        pending(keys_of(names), cached).no_duplicates(),
        pending(keys_of(names), cached).contains(key_of(name)) <==> !cached.contains(key_of(name)),
        forall|i: int, j: int|
            0 <= i < j < pending(keys_of(names), cached).len() ==> !(pending(
                keys_of(names),
                cached,
            )[i] == key_of(name) && pending(keys_of(names), cached)[j] == key_of(name)),
{
    let keys = keys_of(names);
    lemma_pending(keys, cached, keys.len());
    assert(keys.take(keys.len() as int) =~= keys);
    let i = choose|i: int| 0 <= i < names.len() && names[i] == name;
    assert(keys[i] == key_of(name));
}

/// Handing out a key keeps the primer in order, and the key has not been
/// handed out before.
pub proof fn lemma_issue(v: PrimerView)
    requires
        in_order(v),
        can_issue(v),
    ensures
        in_order(issue(v)),
        !issued_keys(v).contains(v.plan[v.issued as int]),
        issued_keys(issue(v)) == issued_keys(v).push(v.plan[v.issued as int]),
{
    let w = issue(v);
    let key = v.plan[v.issued as int];
    assert forall|i: int| 0 <= i < w.issued implies w.in_flight.contains(#[trigger] w.plan[i])
        || w.cache.contains_key(w.plan[i]) by {
        if i < v.issued {
            if v.in_flight.contains(v.plan[i]) {
                let q = choose|q: int| 0 <= q < v.in_flight.len() && v.in_flight[q] == v.plan[i];
                assert(w.in_flight[q] == v.plan[i]);
            }
        } else {
            assert(w.in_flight[v.in_flight.len() as int] == key);
        }
    }
}

/// Taking an answer keeps the primer in order.
pub proof fn lemma_answer(v: PrimerView, key: Seq<char>, outcome: Result<TaxonView, LookupError>)
    requires
        in_order(v),
    ensures
        in_order(answer(v, key, outcome)),
{
    let w = answer(v, key, outcome);
    if position(v.in_flight, key) is Some {
        let q = position(v.in_flight, key)->Some_0;
        assert forall|i: int| 0 <= i < w.issued implies w.in_flight.contains(#[trigger] w.plan[i])
            || w.cache.contains_key(w.plan[i]) by {
            let k = v.plan[i];
            if k != key && v.in_flight.contains(k) {
                let r = choose|r: int| 0 <= r < v.in_flight.len() && v.in_flight[r] == k;
                if r < q {
                    assert(w.in_flight[r] == k);
                } else {
                    assert(w.in_flight[r - 1] == k);
                }
            }
        }
    }
}

/// When a priming pass is done, the cache holds every key of its plan.
pub proof fn lemma_done(v: PrimerView)
    requires
        in_order(v),
        done(v),
    ensures
        forall|i: int| 0 <= i < v.plan.len() ==> v.cache.contains_key(#[trigger] v.plan[i]),
{
    assert forall|i: int| 0 <= i < v.plan.len() implies v.cache.contains_key(
        #[trigger] v.plan[i],
    ) by {}
}

/// A pass with a budget is never stuck: until it is done, a lookup can be
/// handed out or one is running.
pub proof fn lemma_never_stuck(v: PrimerView)
    requires
        in_order(v),
        v.budget >= 1,
        !done(v),
    ensures
        can_issue(v) || v.in_flight.len() > 0,
{
}

/// The species names that the critters mention, in catalog order.
pub fn species_of(critters: &Vec<Critter>) -> (out: Vec<String>)
    ensures
        out.deep_view() == species_first(critters.deep_view(), critters.len() as nat),
{
    let mut out: Vec<String> = Vec::new();
    let mut i: usize = 0;
    while i < critters.len()
        invariant
            i <= critters.len(),
            out.deep_view() == species_first(critters.deep_view(), i as nat),
        decreases critters.len() - i,
    {
        match &critters[i].species {
            Some(name) => {
                out.push(name.clone());
            },
            None => {},
        }
        i = i + 1;
    }
    out
}

/// The keys of the names, in the same order.
pub fn normalize_all(names: &Vec<String>) -> (out: Vec<String>)
    ensures
        out.deep_view() == keys_of(names.deep_view()),
{
    let mut out: Vec<String> = Vec::new();
    let mut i: usize = 0;
    while i < names.len()
        invariant
            i <= names.len(),
            out.deep_view() == keys_of(names.deep_view()).take(i as int),
        decreases names.len() - i,
    {
        let ghost before = out.deep_view();
        out.push(normalize(names[i].as_str()));
        assert(out.deep_view() =~= before.push(key_of(names[i as int]@)));
        i = i + 1;
    }
    out
}

/// A lookup to make: the key under which its outcome is recorded, and the
/// name to ask the service for.
#[derive(Clone, Debug, PartialEq, Eq)]
pub struct Lookup {
    pub key: String,
    pub name: String,
}

/// A priming pass over a cache.
pub struct Primer {
    cache: TaxonCache,
    plan: Vec<String>,
    names: Vec<String>,
    issued: usize,
    in_flight: Vec<String>,
    budget: usize,
}

impl View for Primer {
    type V = PrimerView;

    closed spec fn view(&self) -> PrimerView {
        PrimerView {
            cache: self.cache@,
            plan: self.plan.deep_view(),
            names: self.names.deep_view(),
            issued: self.issued as nat,
            in_flight: self.in_flight.deep_view(),
            budget: self.budget as nat,
        }
    }
}

impl Primer {
    /// The primer is in order: see `in_order`.
    pub open spec fn wf(&self) -> bool {
        in_order(self@)
    }

    /// Starts a pass for the species of the given names. Names with one key
    /// count once, and a species that the cache holds is not looked up
    /// again. The service is asked for a species by the first of its names.
    pub fn new(cache: TaxonCache, names: &Vec<String>, budget: usize) -> (out: Primer)
        ensures
            out.wf(),
            out@ == (PrimerView {
                cache: cache@,
                plan: pending(keys_of(names.deep_view()), cache@.dom()),
                names: asked(keys_of(names.deep_view()), names.deep_view(), cache@.dom()),
                issued: 0,
                in_flight: Seq::empty(),
                budget: budget as nat,
            }),
    {
        let keys = normalize_all(names);
        assert(keys.deep_view().len() == names.deep_view().len());
        Primer::start(cache, &keys, names, budget)
    }

    /// Starts a pass for the given keys. A key counts once, and a key that
    /// the cache holds is not looked up again. The service is asked for a
    /// key as it is.
    pub fn with_keys(cache: TaxonCache, keys: &Vec<String>, budget: usize) -> (out: Primer)
        ensures
            out.wf(),
            out@ == (PrimerView {
                cache: cache@,
                plan: pending(keys.deep_view(), cache@.dom()),
                names: pending(keys.deep_view(), cache@.dom()),
                issued: 0,
                in_flight: Seq::empty(),
                budget: budget as nat,
            }),
    {
        proof {
            lemma_asked_keys(keys.deep_view(), cache@.dom(), keys.len() as nat);
        }
        Primer::start(cache, keys, keys, budget)
    }

    /// Starts a pass for the given keys, each with the name to ask for.
    fn start(cache: TaxonCache, keys: &Vec<String>, names: &Vec<String>, budget: usize) -> (out:
        Primer)
        requires
            names.len() == keys.len(),
        ensures
            out.wf(),
            out@ == (PrimerView {
                cache: cache@,
                plan: pending(keys.deep_view(), cache@.dom()),
                names: asked(keys.deep_view(), names.deep_view(), cache@.dom()),
                issued: 0,
                in_flight: Seq::empty(),
                budget: budget as nat,
            }),
    {
        let mut plan: Vec<String> = Vec::new();
        let mut spellings: Vec<String> = Vec::new();
        let mut i: usize = 0;
        while i < keys.len()
            invariant
                i <= keys.len(),
                names.len() == keys.len(),
                plan.deep_view() == pending_first(keys.deep_view(), cache@.dom(), i as nat),
                spellings.deep_view() == asked_first(
                    keys.deep_view(),
                    names.deep_view(),
                    cache@.dom(),
                    i as nat,
                ),
            decreases keys.len() - i,
        {
            let ghost before = plan.deep_view();
            let ghost spelled = spellings.deep_view();
            let known = cache.contains(&keys[i]);
            let listed = find(&plan, &keys[i]);
            proof {
                lemma_position_found(before, keys[i as int]@);
            }
            if !known && listed.is_none() {
                plan.push(keys[i].clone());
                spellings.push(names[i].clone());
                assert(plan.deep_view() =~= before.push(keys.deep_view()[i as int]));
                assert(spellings.deep_view() =~= spelled.push(names.deep_view()[i as int]));
            }
            i = i + 1;
        }
        let in_flight: Vec<String> = Vec::new();
        proof {
            lemma_pending(keys.deep_view(), cache@.dom(), keys.len() as nat);
            lemma_asked(keys.deep_view(), names.deep_view(), cache@.dom(), keys.len() as nat);
            assert(in_flight.deep_view() =~= Seq::<Seq<char>>::empty());
        }
        Primer { cache, plan, names: spellings, issued: 0, in_flight, budget }
    }

    /// Hands out the next lookup, if one is left and fewer lookups than
    /// the budget are running: the next key of the plan and the name to ask
    /// for. No key is handed out twice.
    pub fn next_lookup(&mut self) -> (out: Option<Lookup>)
        requires
            old(self).wf(),
        ensures
            final(self).wf(),
            match out {
                Some(lookup) => can_issue(old(self)@) && final(self)@ == issue(old(self)@)
                    && lookup.key@ == old(self)@.plan[old(self)@.issued as int] && lookup.name@
                    == old(self)@.names[old(self)@.issued as int] && !issued_keys(
                    old(self)@,
                ).contains(lookup.key@),
                None => !can_issue(old(self)@) && final(self)@ == old(self)@,
            },
    {
        if self.in_flight.len() < self.budget && self.issued < self.plan.len() {
            proof {
                lemma_issue(self@);
            }
            let ghost before = self.in_flight.deep_view();
            let key = self.plan[self.issued].clone();
            let name = self.names[self.issued].clone();
            self.in_flight.push(key.clone());
            self.issued = self.issued + 1;
            assert(self.in_flight.deep_view() =~= before.push(key@));
            Some(Lookup { key, name })
        } else {
            None
        }
    }

    /// Takes the answer of a lookup. It counts only if the key is in
    /// flight: then the slot is freed and the outcome is recorded, unless
    /// the cache holds one for that key already. Tells whether it counted.
    pub fn complete(&mut self, key: &String, outcome: Result<Taxon, LookupError>) -> (counted: bool)
        requires
            old(self).wf(),
        ensures
            final(self).wf(),
            counted == (position(old(self)@.in_flight, key@) is Some),
            final(self)@ == answer(old(self)@, key@, outcome_view(outcome)),
    {
        proof {
            lemma_answer(self@, key@, outcome_view(outcome));
        }
        match find(&self.in_flight, key) {
            Some(q) => {
                let ghost before = self.in_flight.deep_view();
                self.in_flight.remove(q);
                assert(self.in_flight.deep_view() =~= before.remove(q as int));
                self.cache.record(key.clone(), outcome);
                true
            },
            None => false,
        }
    }

    /// Tells whether every key has been handed out and answered.
    pub fn is_done(&self) -> (out: bool)
        requires
            self.wf(),
        ensures
            out == done(self@),
            out ==> forall|i: int|
                0 <= i < self@.plan.len() ==> self@.cache.contains_key(#[trigger] self@.plan[i]),
    {
        let out = self.issued == self.plan.len() && self.in_flight.len() == 0;
        out
    }

    /// How many lookups are running: never more than the budget.
    pub fn running(&self) -> (out: usize)
        requires
            self.wf(),
        ensures
            out == self@.in_flight.len(),
            out <= self@.budget,
    {
        self.in_flight.len()
    }

    /// Ends the pass and hands the cache back.
    pub fn into_cache(self) -> (out: TaxonCache)
        ensures
            out@ == self@.cache,
    {
        self.cache
    }
}

} // verus!
