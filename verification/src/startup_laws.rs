//! What holds of every catalog that a session starts with: which models are kept and
//! shown, what is known of each, and which windows are learned from it.

use crate::catalog::{endpoint_in, spec_of, specs_of, SpecView};
use crate::catalog_store::PersistedView;
use crate::context_limits::{
    limits_after, matched_char, spelling, stated_windows, window_in, windows_of,
};
use crate::copilot_catalog::{default_for, endpoint_among, CopilotEndpoint, CopilotModelInfo};
use crate::copilot_enterprise::{base_known, BasesView};
use crate::credentials::{relogged, CredentialView};
use crate::keyed::text_views;
use crate::provider::SharedView;
use crate::startup::{
    bases_after_invalidation, chosen_model, display_ids, ids_among, installed, rerouted, seeded,
    usable_among, usable_of,
};
use vstd::prelude::*;

verus! {

proof fn lemma_usable_front(a: Seq<CopilotModelInfo>, b: Seq<CopilotModelInfo>, n: int)
    requires
        n <= a.len(),
    ensures
        usable_among(a + b, n) == usable_among(a, n),
    decreases n,
{
    if n > 0 {
        lemma_usable_front(a, b, n - 1);
        assert((a + b)[n - 1] == a[n - 1]);
    }
}

proof fn lemma_usable_back(a: Seq<CopilotModelInfo>, b: Seq<CopilotModelInfo>, n: int)
    requires
        0 <= n <= b.len(),
    ensures
        usable_among(a + b, a.len() + n) == usable_of(a) + usable_among(b, n),
    decreases n,
{
    if n == 0 {
        lemma_usable_front(a, b, a.len() as int);
        assert(usable_of(a) + usable_among(b, 0) =~= usable_of(a));
    } else {
        lemma_usable_back(a, b, n - 1);
        assert((a + b)[a.len() + n - 1] == b[n - 1]);
        assert(usable_among(a + b, a.len() + n) =~= usable_of(a) + usable_among(b, n));
    }
}

/// The models that are kept are all the usable ones, in the catalog's order.
pub proof fn law_usable_models_are_all_kept(
    a: Seq<CopilotModelInfo>,
    b: Seq<CopilotModelInfo>,
    m: CopilotModelInfo,
)
    ensures
        usable_of(a + b) == usable_of(a) + usable_of(b),
        m.usable() ==> usable_of(seq![m]) == seq![m],
        !m.usable() ==> usable_of(seq![m]) == Seq::<CopilotModelInfo>::empty(),
{
    lemma_usable_back(a, b, b.len() as int);
    assert(usable_among(seq![m], 0) =~= seq![]);
    assert(seq![m][0] == m);
    assert(usable_among(seq![m], 0).push(m) =~= seq![m]);
}

proof fn lemma_ids_front(a: Seq<CopilotModelInfo>, b: Seq<CopilotModelInfo>, picked: bool, n: int)
    requires
        n <= a.len(),
    ensures
        ids_among(a + b, picked, n) == ids_among(a, picked, n),
    decreases n,
{
    if n > 0 {
        lemma_ids_front(a, b, picked, n - 1);
        assert((a + b)[n - 1] == a[n - 1]);
    }
}

proof fn lemma_ids_back(a: Seq<CopilotModelInfo>, b: Seq<CopilotModelInfo>, picked: bool, n: int)
    requires
        0 <= n <= b.len(),
    ensures
        ids_among(a + b, picked, a.len() + n) == ids_among(a, picked, a.len() as int) + ids_among(
            b,
            picked,
            n,
        ),
    decreases n,
{
    let front = ids_among(a, picked, a.len() as int);
    if n == 0 {
        lemma_ids_front(a, b, picked, a.len() as int);
        assert(front + ids_among(b, picked, 0) =~= front);
    } else {
        lemma_ids_back(a, b, picked, n - 1);
        assert((a + b)[a.len() + n - 1] == b[n - 1]);
        assert(ids_among(a + b, picked, a.len() + n) =~= front + ids_among(b, picked, n));
    }
}

/// The ids of models stand one after the other; the picker's own leaves out the
/// models that it does not list.
pub proof fn law_ids_are_listed_in_order(
    a: Seq<CopilotModelInfo>,
    b: Seq<CopilotModelInfo>,
    m: CopilotModelInfo,
    picked: bool,
)
    ensures
        ids_among(a + b, picked, (a + b).len() as int) == ids_among(a, picked, a.len() as int)
            + ids_among(b, picked, b.len() as int),
        ids_among(seq![m], false, 1) == seq![m.id@],
        m.model_picker_enabled ==> ids_among(seq![m], true, 1) == seq![m.id@],
        !m.model_picker_enabled ==> ids_among(seq![m], true, 1) == Seq::<Seq<char>>::empty(),
{
    lemma_ids_back(a, b, picked, b.len() as int);
    assert((a + b).len() == a.len() + b.len());
    assert(seq![m][0] == m);
    assert(ids_among(seq![m], false, 0) =~= seq![]);
    assert(ids_among(seq![m], true, 0) =~= seq![]);
    assert(ids_among(seq![m], false, 0).push(m.id@) =~= seq![m.id@]);
    assert(ids_among(seq![m], true, 0).push(m.id@) =~= seq![m.id@]);
}

/// The picker shows the models that it lists, and all of them where it lists none.
pub proof fn law_picker_shows_its_models(models: Seq<CopilotModelInfo>, i: int)
    ensures
        0 <= i < models.len() && models[i].model_picker_enabled ==> display_ids(models).contains(
            models[i].id@,
        ) && display_ids(models) == ids_among(models, true, models.len() as int),
        (forall|j: int| 0 <= j < models.len() ==> !(#[trigger] models[j]).model_picker_enabled)
            ==> display_ids(models) == ids_among(models, false, models.len() as int)
            && display_ids(models).len() == models.len(),
{
    let n = models.len() as int;
    lemma_all_ids(models, n);
    if 0 <= i < models.len() && models[i].model_picker_enabled {
        lemma_picked_id(models, n, i);
    }
    if forall|j: int| 0 <= j < models.len() ==> !(#[trigger] models[j]).model_picker_enabled {
        lemma_none_picked(models, n);
    }
}

proof fn lemma_all_ids(models: Seq<CopilotModelInfo>, n: int)
    requires
        0 <= n,
    ensures
        ids_among(models, false, n).len() == n,
    decreases n,
{
    if n > 0 {
        lemma_all_ids(models, n - 1);
    }
}

proof fn lemma_picked_id(models: Seq<CopilotModelInfo>, n: int, i: int)
    requires
        0 <= i < n <= models.len(),
        models[i].model_picker_enabled,
    ensures
        ids_among(models, true, n).contains(models[i].id@),
        ids_among(models, true, n).len() > 0,
    decreases n,
{
    let ids = ids_among(models, true, n);
    if n - 1 == i {
        assert(ids.last() == models[i].id@);
    } else {
        lemma_picked_id(models, n - 1, i);
        let before = ids_among(models, true, n - 1);
        let k = choose|k: int| 0 <= k < before.len() && before[k] == models[i].id@;
        assert(ids[k] == models[i].id@);
    }
}

proof fn lemma_none_picked(models: Seq<CopilotModelInfo>, n: int)
    requires
        0 <= n <= models.len(),
        forall|j: int| 0 <= j < models.len() ==> !(#[trigger] models[j]).model_picker_enabled,
    ensures
        ids_among(models, true, n).len() == 0,
    decreases n,
{
    if n > 0 {
        lemma_none_picked(models, n - 1);
    }
}

/// A pinned model is kept where the account has it. Otherwise, and without a pin,
/// the catalog's default is taken.
pub proof fn law_pinned_model_is_kept(
    pinned: Seq<char>,
    models: Seq<CopilotModelInfo>,
    family: Seq<char>,
)
    ensures
        (exists|i: int| 0 <= i < models.len() && (#[trigger] models[i]).id@ == pinned)
            ==> chosen_model(Some(pinned), models, family) == pinned,
        (forall|i: int| 0 <= i < models.len() ==> (#[trigger] models[i]).id@ != pinned)
            ==> chosen_model(Some(pinned), models, family) == default_for(models, family),
        chosen_model(None, models, family) == default_for(models, family),
{
    lemma_listed(models, models.len() as int, pinned);
}

proof fn lemma_listed(models: Seq<CopilotModelInfo>, n: int, id: Seq<char>)
    requires
        0 <= n <= models.len(),
    ensures
        ids_among(models, false, n).contains(id) <==> (exists|i: int|
            0 <= i < n && (#[trigger] models[i]).id@ == id),
    decreases n,
{
    if n > 0 {
        lemma_listed(models, n - 1, id);
        let before = ids_among(models, false, n - 1);
        let after = before.push(models[n - 1].id@);
        if before.contains(id) {
            let k = choose|k: int| 0 <= k < before.len() && before[k] == id;
            assert(after[k] == id);
            let i = choose|i: int| 0 <= i < n - 1 && (#[trigger] models[i]).id@ == id;
            assert(models[i].id@ == id);
        }
        if after.contains(id) {
            let k = choose|k: int| 0 <= k < after.len() && after[k] == id;
            if k < before.len() {
                assert(before[k] == id);
            } else {
                assert(models[n - 1].id@ == id);
            }
        }
        if models[n - 1].id@ == id {
            assert(after.last() == id);
        }
    }
}

/// What is known of a model is what its entry says, each thing by its own field.
pub proof fn law_entry_says_what_is_known(m: CopilotModelInfo)
    ensures
        spec_of(m).endpoint == endpoint_among(text_views(m.supported_endpoints@)),
        spec_of(m).context_window == m.context_window(),
        spec_of(m).max_output_tokens == m.output_cap(),
        spec_of(m).reasoning_efforts == m.efforts(),
        spec_of(m).supports_vision <==> m.takes_images(),
        spec_of(m).supports_tool_calls <==> m.calls_tools() == Some(true),
{
}

proof fn lemma_spec_of_last(models: Seq<CopilotModelInfo>, n: int, i: int)
    requires
        0 <= i < n <= models.len(),
        forall|j: int| i < j < n ==> (#[trigger] models[j]).id@ != models[i].id@,
    ensures
        specs_of(models, n).contains_key(models[i].id@),
        specs_of(models, n)[models[i].id@] == spec_of(models[i]),
    decreases n,
{
    if n - 1 > i {
        lemma_spec_of_last(models, n - 1, i);
        assert(models[n - 1].id@ != models[i].id@);
    }
}

proof fn lemma_specs_come_from_models(models: Seq<CopilotModelInfo>, n: int, id: Seq<char>)
    requires
        0 <= n <= models.len(),
        forall|j: int| 0 <= j < n ==> (#[trigger] models[j]).id@ != id,
    ensures
        !specs_of(models, n).contains_key(id),
    decreases n,
{
    if n > 0 {
        assert(models[n - 1].id@ != id);
        lemma_specs_come_from_models(models, n - 1, id);
    }
}

/// After a fetch the shown models are those of the catalog, it is live, and of each
/// usable model its last entry is known. Nothing is known of any other model, and
/// the seat's plan stays.
pub proof fn law_fetched_catalog_is_installed(
    shared: SharedView,
    fetched: Seq<CopilotModelInfo>,
    i: int,
    id: Seq<char>,
)
    ensures
        ({
            let models = usable_of(fetched);
            let after = installed(shared, fetched);
            &&& after.fetched_models == display_ids(models)
            &&& after.source is Live
            &&& after.account_type == shared.account_type
            &&& 0 <= i < models.len() && (forall|j: int|
                i < j < models.len() ==> (#[trigger] models[j]).id@ != models[i].id@)
                ==> after.specs.contains_key(models[i].id@) && after.specs[models[i].id@]
                == spec_of(models[i]) && endpoint_in(after.specs, models[i].id@) == spec_of(
                models[i],
            ).endpoint
            &&& (forall|j: int| 0 <= j < models.len() ==> (#[trigger] models[j]).id@ != id)
                ==> !after.specs.contains_key(id) && endpoint_in(after.specs, id)
                == CopilotEndpoint::ChatCompletions
        }),
{
    let models = usable_of(fetched);
    let n = models.len() as int;
    if 0 <= i < n && (forall|j: int| i < j < n ==> (#[trigger] models[j]).id@ != models[i].id@) {
        lemma_spec_of_last(models, n, i);
    }
    if forall|j: int| 0 <= j < n ==> (#[trigger] models[j]).id@ != id {
        lemma_specs_come_from_models(models, n, id);
    }
}

/// A catalog that is fetched for its routes changes what is known of models, as a
/// full fetch does, and nothing else.
pub proof fn law_rerouting_keeps_the_picker(shared: SharedView, fetched: Seq<CopilotModelInfo>)
    ensures
        rerouted(shared, fetched).specs == installed(shared, fetched).specs,
        rerouted(shared, fetched).fetched_models == shared.fetched_models,
        rerouted(shared, fetched).source == shared.source,
        rerouted(shared, fetched).account_type == shared.account_type,
{
}

/// A catalog from disk is shown as it was filed and counts as cached. Where it says
/// nothing of its models, what is known of them stays; so does the plan.
pub proof fn law_filed_catalog_is_shown(shared: SharedView, filed: PersistedView, id: Seq<char>)
    ensures
        seeded(shared, filed).fetched_models == filed.models,
        seeded(shared, filed).source is Cached,
        seeded(shared, filed).account_type == shared.account_type,
        filed.specs.contains_key(id) ==> seeded(shared, filed).specs == filed.specs,
        filed.specs == Map::<Seq<char>, SpecView>::empty() ==> seeded(shared, filed).specs
            == shared.specs,
{
    if filed.specs.contains_key(id) {
        assert(!Map::<Seq<char>, SpecView>::empty().contains_key(id));
    }
}

/// An invalidated login leaves no known base, neither of the old token nor of the
/// new one.
pub proof fn law_invalidation_forgets_bases(
    known: BasesView,
    now: CredentialView,
    fresh: Option<Seq<char>>,
)
    ensures
        relogged(now, fresh).token.len() > 0 ==> base_known(
            bases_after_invalidation(known, now, fresh),
            relogged(now, fresh).token,
        ) is None,
        fresh != Some(now.token) ==> base_known(
            bases_after_invalidation(known, now, fresh),
            now.token,
        ) is None,
{
}

/// Names are matched without regard to case, and a dot counts as a dash.
pub proof fn law_spelling_is_matched(model: Seq<char>, i: int)
    requires
        0 <= i < model.len(),
    ensures
        spelling(model).len() == model.len(),
        model[i] == '.' ==> spelling(model)[i] == '-',
        'A' <= model[i] <= 'Z' ==> spelling(model)[i] as int - 'a' as int == model[i] as int
            - 'A' as int,
        model[i] != '.' && !('A' <= model[i] <= 'Z') ==> spelling(model)[i] == model[i],
{
    assert(spelling(model)[i] == matched_char(model[i]));
}

proof fn lemma_window_of_last(entries: Seq<(Seq<char>, usize)>, n: int, i: int)
    requires
        0 <= i < n <= entries.len(),
        forall|j: int| i < j < n ==> spelling((#[trigger] entries[j]).0) != spelling(entries[i].0),
    ensures
        windows_of(entries, n).contains_key(spelling(entries[i].0)),
        windows_of(entries, n)[spelling(entries[i].0)] == entries[i].1,
    decreases n,
{
    if n - 1 > i {
        lemma_window_of_last(entries, n - 1, i);
        assert(spelling(entries[n - 1].0) != spelling(entries[i].0));
    }
}

proof fn lemma_no_window(entries: Seq<(Seq<char>, usize)>, n: int, name: Seq<char>)
    requires
        0 <= n <= entries.len(),
        forall|j: int| 0 <= j < n ==> spelling((#[trigger] entries[j]).0) != name,
    ensures
        !windows_of(entries, n).contains_key(name),
    decreases n,
{
    if n > 0 {
        assert(spelling(entries[n - 1].0) != name);
        lemma_no_window(entries, n - 1, name);
    }
}

/// The windows that a catalog states replace all that were known: a model has the
/// window of its last entry, and a name that is in none of them, and is no fast
/// variant, has none.
pub proof fn law_stated_windows_replace_the_known(
    known: Map<Seq<char>, usize>,
    entries: Seq<(Seq<char>, usize)>,
    i: int,
    model: Seq<char>,
)
    requires
        0 <= i < entries.len(),
        forall|j: int|
            i < j < entries.len() ==> spelling((#[trigger] entries[j]).0) != spelling(entries[i].0),
    ensures
        window_in(limits_after(known, entries), entries[i].0) == Some(entries[i].1),
        (forall|j: int|
            0 <= j < entries.len() ==> spelling((#[trigger] entries[j]).0) != spelling(model))
            && !crate::text::finishes(spelling(model), "-fast"@) ==> window_in(
            limits_after(known, entries),
            model,
        ) is None,
{
    let n = entries.len() as int;
    lemma_window_of_last(entries, n, i);
    if forall|j: int| 0 <= j < n ==> spelling((#[trigger] entries[j]).0) != spelling(model) {
        lemma_no_window(entries, n, spelling(model));
    }
}

proof fn lemma_stated_before(models: Seq<CopilotModelInfo>, m: CopilotModelInfo, n: int)
    requires
        n <= models.len(),
    ensures
        stated_windows(models.push(m), n) == stated_windows(models, n),
    decreases n,
{
    if n > 0 {
        lemma_stated_before(models, m, n - 1);
        assert(models.push(m)[n - 1] == models[n - 1]);
    }
}

/// Each model that states a window gives one entry, under its id and in the
/// catalog's order.
pub proof fn law_each_stated_window_is_listed(models: Seq<CopilotModelInfo>, m: CopilotModelInfo)
    ensures
        ({
            let n = models.len() as int;
            let before = stated_windows(models, n);
            let after = stated_windows(models.push(m), n + 1);
            &&& m.context_window() matches Some(window) ==> after == before.push((m.id@, window))
            &&& m.context_window() is None ==> after == before
            &&& stated_windows(Seq::<CopilotModelInfo>::empty(), 0).len() == 0
        }),
{
    lemma_stated_before(models, m, models.len() as int);
    assert(models.push(m)[models.len() as int] == m);
}

} // verus!
