//! Context windows, as the whole process looks them up.
//!
//! The provider is not the only one that budgets against a model's context
//! window. The catalog's windows are kept here, and win over the static table.

use crate::catalog::{spec_views, CatalogSpecs, SpecView};
use crate::copilot_catalog::CopilotModelInfo;
use crate::copilot_enterprise::str_option;
use crate::keyed::{keys_differ, lemma_entry_in_map, map_of, TextMap};
use crate::text::{ascii_small, chars_of, finishes, same, small, strip_suffix};
use vstd::prelude::*;

verus! {

/// A character of a model id, as ids are matched.
pub open spec fn matched_char(c: char) -> char {
    if c == '.' {
        '-'
    } else {
        ascii_small(c)
    }
}

/// A model id as ids are matched: in small letters, with hyphens for dots.
pub open spec fn spelling(model: Seq<char>) -> Seq<char> {
    model.map_values(|c: char| matched_char(c))
}

fn spelled(model: &str) -> (r: String)
    ensures
        r@ == spelling(model@),
{
    let cs = chars_of(model);
    let mut r: String = String::new();
    let mut i: usize = 0;
    while i < cs.len()
        invariant
            cs@ == model@,
            i <= cs@.len(),
            r@.len() == i,
            forall|k: int| 0 <= k < i ==> #[trigger] r@[k] == matched_char(model@[k]),
        decreases cs@.len() - i,
    {
        if cs[i] == '.' {
            r.push('-');
        } else {
            r.push(small(cs[i]));
        }
        i = i + 1;
    }
    assert(r@ =~= spelling(model@));
    r
}

/// The windows that the first `n` entries state, by the spelling of the model;
/// of two entries with one spelling the later one counts.
pub open spec fn windows_of(entries: Seq<(Seq<char>, usize)>, n: int) -> Map<Seq<char>, usize>
    decreases n,
{
    if n <= 0 {
        Map::empty()
    } else {
        windows_of(entries, n - 1).insert(spelling(entries[n - 1].0), entries[n - 1].1)
    }
}

/// The models of a list of windows.
pub open spec fn window_views(entries: Seq<(String, usize)>) -> Seq<(Seq<char>, usize)> {
    entries.map_values(|e: (String, usize)| (e.0@, e.1))
}

/// The context windows that the catalog states.
pub struct ContextLimits {
    limits: TextMap<usize>,
}

impl View for ContextLimits {
    type V = Map<Seq<char>, usize>;

    closed spec fn view(&self) -> Map<Seq<char>, usize> {
        self.limits@
    }
}

impl ContextLimits {
    /// No windows.
    pub fn new() -> (r: ContextLimits)
        ensures
            r@ == Map::<Seq<char>, usize>::empty(),
    {
        ContextLimits { limits: TextMap::new() }
    }
}

/// The windows that are known after a catalog has stated `entries`: those, or
/// what was known before where there are none.
pub open spec fn limits_after(
    known: Map<Seq<char>, usize>,
    entries: Seq<(Seq<char>, usize)>,
) -> Map<Seq<char>, usize> {
    if entries.len() == 0 {
        known
    } else {
        windows_of(entries, entries.len() as int)
    }
}

/// Publishes the windows that a catalog states.
pub fn record_copilot_catalog_context_limits(
    known: &mut ContextLimits,
    entries: &Vec<(String, usize)>,
)
    ensures
        final(known)@ == limits_after(old(known)@, window_views(entries@)),
{
    if entries.len() == 0 {
        return ;
    }
    let mut limits: TextMap<usize> = TextMap::new();
    let mut i: usize = 0;
    while i < entries.len()
        invariant
            i <= entries@.len(),
            limits@ == windows_of(window_views(entries@), i as int),
        decreases entries@.len() - i,
    {
        limits.insert(spelled(entries[i].0.as_str()), entries[i].1);
        i = i + 1;
    }
    known.limits = limits;
}

/// Forgets every window.
pub fn clear_copilot_catalog_context_limits(known: &mut ContextLimits)
    ensures
        final(known)@ == Map::<Seq<char>, usize>::empty(),
{
    known.limits.clear();
}

/// The window that the catalog states for a model: under its spelling, else
/// under its spelling without the suffix of the fast route.
pub open spec fn window_in(known: Map<Seq<char>, usize>, model: Seq<char>) -> Option<usize> {
    let name = spelling(model);
    if known.contains_key(name) {
        Some(known[name])
    } else if finishes(name, "-fast"@) && known.contains_key(
        name.take(name.len() - "-fast"@.len()),
    ) {
        Some(known[name.take(name.len() - "-fast"@.len())])
    } else {
        None
    }
}

/// The window that the catalog states for a model.
pub fn copilot_catalog_context_limit(known: &ContextLimits, model: &str) -> (r: Option<usize>)
    ensures
        r == window_in(known@, model@),
{
    let name = spelled(model);
    match known.limits.get(name.as_str()) {
        Some(window) => Some(*window),
        None => match strip_suffix(name.as_str(), "-fast") {
            Some(base) => match known.limits.get(base) {
                Some(window) => Some(*window),
                None => None,
            },
            None => None,
        },
    }
}

/// The window of a model at a provider, where `table` is what the static table
/// says of it. For Copilot the catalog wins.
pub fn context_limit_for_model_with_provider(
    known: &ContextLimits,
    model: &str,
    provider: Option<&str>,
    table: Option<usize>,
) -> (r: Option<usize>)
    ensures
        r == (if str_option(provider) == Some("copilot"@) && window_in(known@, model@) is Some {
            window_in(known@, model@)
        } else {
            table
        }),
{
    match provider {
        Some(name) => {
            if same(name, "copilot") {
                match copilot_catalog_context_limit(known, model) {
                    Some(window) => {
                        return Some(window);
                    },
                    None => {},
                }
            }
        },
        None => {},
    }
    table
}

/// The ids and windows of the first `n` entries of a catalog that state a window.
pub open spec fn stated_windows(models: Seq<CopilotModelInfo>, n: int) -> Seq<(Seq<char>, usize)>
    decreases n,
{
    if n <= 0 {
        seq![]
    } else {
        match models[n - 1].context_window() {
            Some(window) => stated_windows(models, n - 1).push((models[n - 1].id@, window)),
            None => stated_windows(models, n - 1),
        }
    }
}

/// The ids and windows that a catalog states.
pub fn windows_in_catalog(models: &Vec<CopilotModelInfo>) -> (r: Vec<(String, usize)>)
    ensures
        window_views(r@) == stated_windows(models@, models@.len() as int),
{
    let mut r: Vec<(String, usize)> = Vec::new();
    let mut i: usize = 0;
    assert(window_views(r@) =~= seq![]);
    while i < models.len()
        invariant
            i <= models@.len(),
            window_views(r@) == stated_windows(models@, i as int),
        decreases models@.len() - i,
    {
        let ghost before = r@;
        match models[i].max_context_window_tokens() {
            Some(window) => {
                r.push((models[i].id.clone(), window));
                assert(window_views(r@) =~= window_views(before).push(
                    (models@[i as int].id@, window),
                ));
            },
            None => {},
        }
        i = i + 1;
    }
    r
}

/// Whether a list holds exactly the windows of a catalog's specs, each model at
/// most once.
pub open spec fn lists_windows(entries: Seq<(String, usize)>, specs: Map<Seq<char>, SpecView>) -> bool {
    &&& keys_differ(entries)
    &&& forall|i: int|
        0 <= i < entries.len() ==> specs.contains_key((#[trigger] entries[i]).0@)
            && specs[entries[i].0@].context_window == Some(entries[i].1)
    &&& forall|k: Seq<char>|
        #![trigger specs.contains_key(k)]
        specs.contains_key(k) && specs[k].context_window is Some ==> (exists|i: int|
            0 <= i < entries.len() && (#[trigger] entries[i]).0@ == k)
}

/// The ids and windows that a catalog's specs state.
pub fn windows_in_specs(specs: &CatalogSpecs) -> (r: Vec<(String, usize)>)
    ensures
        lists_windows(r@, specs@),
{
    let entries = specs.iter();
    let mut r: Vec<(String, usize)> = Vec::new();
    let mut i: usize = 0;
    while i < entries.len()
        invariant
            i <= entries@.len(),
            keys_differ(entries@),
            specs@ == spec_views(map_of(entries@)),
            keys_differ(r@),
            forall|j: int|
                0 <= j < r@.len() ==> exists|k: int|
                    0 <= k < i && (#[trigger] entries@[k]).0@ == (#[trigger] r@[j]).0@,
            forall|j: int|
                0 <= j < r@.len() ==> specs@.contains_key((#[trigger] r@[j]).0@)
                    && specs@[r@[j].0@].context_window == Some(r@[j].1),
            forall|k: int|
                0 <= k < i && (#[trigger] entries@[k]).1.context_window is Some ==> exists|j: int|
                    0 <= j < r@.len() && (#[trigger] r@[j]).0@ == entries@[k].0@,
        decreases entries@.len() - i,
    {
        let ghost before = r@;
        proof {
            lemma_entry_in_map(entries@, i as int);
        }
        match entries[i].1.context_window {
            Some(window) => {
                r.push((entries[i].0.clone(), window));
                proof {
                    let key = entries@[i as int].0@;
                    assert(r@[r@.len() - 1].0@ == key);
                    assert forall|a: int, b: int| 0 <= a < b < r@.len() implies (
                    #[trigger] r@[a]).0@ != (#[trigger] r@[b]).0@ by {
                        if b < before.len() {
                            assert(before[a].0@ != before[b].0@);
                        } else {
                            assert(before[a] == r@[a]);
                            let k = choose|k: int|
                                0 <= k < i && (#[trigger] entries@[k]).0@ == before[a].0@;
                            assert(entries@[k].0@ != entries@[i as int].0@);
                        }
                    }
                    assert forall|j: int| 0 <= j < r@.len() implies exists|k: int|
                        0 <= k < i + 1 && (#[trigger] entries@[k]).0@ == (#[trigger] r@[j]).0@ by {
                        if j < before.len() {
                            assert(before[j] == r@[j]);
                            let k = choose|k: int|
                                0 <= k < i && (#[trigger] entries@[k]).0@ == before[j].0@;
                            assert(entries@[k].0@ == r@[j].0@);
                        } else {
                            assert(entries@[i as int].0@ == r@[j].0@);
                        }
                    }
                    assert forall|k: int|
                        0 <= k < i + 1 && (#[trigger] entries@[k]).1.context_window
                            is Some implies exists|j: int|
                        0 <= j < r@.len() && (#[trigger] r@[j]).0@ == entries@[k].0@ by {
                        if k < i {
                            let j = choose|j: int|
                                0 <= j < before.len() && (#[trigger] before[j]).0@
                                    == entries@[k].0@;
                            assert(r@[j] == before[j]);
                        } else {
                            assert(r@[r@.len() - 1].0@ == entries@[k].0@);
                        }
                    }
                }
            },
            None => {},
        }
        i = i + 1;
    }
    proof {
        assert forall|k: Seq<char>|
            #![trigger specs@.contains_key(k)]
            specs@.contains_key(k) && specs@[k].context_window is Some implies exists|j: int|
            0 <= j < r@.len() && (#[trigger] r@[j]).0@ == k by {
            crate::keyed::lemma_key_has_entry(entries@, k);
            let n = choose|n: int| 0 <= n < entries@.len() && (#[trigger] entries@[n]).0@ == k;
            lemma_entry_in_map(entries@, n);
            assert(entries@[n].1.context_window is Some);
        }
    }
    r
}

/// A catalog without windows does not wipe the windows that are known.
pub proof fn law_empty_catalog_keeps_windows(known: Map<Seq<char>, usize>)
    ensures
        limits_after(known, seq![]) == known,
{
}

/// Ids that differ in the case of letters, or in dots and hyphens, have one
/// window.
pub proof fn law_spellings_share_a_window(
    known: Map<Seq<char>, usize>,
    a: Seq<char>,
    b: Seq<char>,
)
    requires
        a.len() == b.len(),
        forall|i: int|
            0 <= i < a.len() ==> matched_char(#[trigger] a[i]) == matched_char(b[i]),
    ensures
        window_in(known, a) == window_in(known, b),
{
    assert(spelling(a) =~= spelling(b));
}

/// A model that is asked for with `-fast` behind its id has the window of the
/// model, unless the catalog states a window of its own for it.
pub proof fn law_fast_names_share_a_window(known: Map<Seq<char>, usize>, model: Seq<char>)
    requires
        known.contains_key(spelling(model)),
        !known.contains_key(spelling(model + "-fast"@)),
    ensures
        window_in(known, model + "-fast"@) == window_in(known, model),
{
    reveal_strlit("-fast");
    let fast = "-fast"@;
    let name = spelling(model + fast);
    assert(fast.len() == 5);
    assert(name.len() == model.len() + 5);
    assert(fast =~= seq!['-', 'f', 'a', 's', 't']);
    assert forall|i: int| 0 <= i < 5 implies matched_char(#[trigger] fast[i]) == fast[i] by {
        assert(i == 0 || i == 1 || i == 2 || i == 3 || i == 4);
    }
    assert(name.subrange(name.len() - 5, name.len() as int) =~= fast);
    assert(name.take(name.len() - 5) =~= spelling(model));
}

} // verus!
