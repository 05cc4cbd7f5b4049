//! What happens before the first request: the filed catalog is taken over, the
//! seat is looked up, and the account's catalog is fetched and installed.

use crate::catalog::{endpoint_in, specs_of, CatalogSpecs, SpecView};
use crate::catalog_store::{
    load_persisted_catalog, persist_catalog, usable_with, PersistedCopilotCatalog, PersistedView,
};
use crate::context_limits::{
    clear_copilot_catalog_context_limits, limits_after, lists_windows,
    record_copilot_catalog_context_limits, stated_windows, window_views, windows_in_catalog,
    windows_in_specs, ContextLimits,
};
use crate::copilot_catalog::{
    billing_after, choose_default_model, clear_catalog_billing, default_for, record_catalog_billing,
    CatalogBilling, CopilotEndpoint, CopilotModelInfo,
};
use crate::copilot_catalog_pricing::CopilotCatalogBilling;
use crate::copilot_enterprise::{
    cache_key, clear_discovered_api_base_for, forgotten, plan_kind, str_option, BasesView,
    CopilotUserInfo, DiscoveredApiBases,
};
use crate::credentials::{bases_after_login, is_current, relogged, CredentialView, Credentials};
use crate::keyed::{lists, text_views};
use crate::provider::{
    nothing_shared, with_default, CatalogSource, CopilotApiProvider, SharedCatalog, SharedView,
};
use crate::text::{owned, trim, trimmed};
use vstd::prelude::*;

verus! {

/// The entries among the first `n` that can serve an agent's turn.
pub open spec fn usable_among(models: Seq<CopilotModelInfo>, n: int) -> Seq<CopilotModelInfo>
    decreases n,
{
    if n <= 0 {
        seq![]
    } else if models[n - 1].usable() {
        usable_among(models, n - 1).push(models[n - 1])
    } else {
        usable_among(models, n - 1)
    }
}

/// The entries that can serve an agent's turn.
pub open spec fn usable_of(models: Seq<CopilotModelInfo>) -> Seq<CopilotModelInfo> {
    usable_among(models, models.len() as int)
}

/// Keeps the entries that can serve an agent's turn.
pub fn keep_usable(models: Vec<CopilotModelInfo>) -> (r: Vec<CopilotModelInfo>)
    ensures
        r@ == usable_of(models@),
{
    let ghost all = models@;
    let mut rest = models;
    let mut r: Vec<CopilotModelInfo> = Vec::new();
    let ghost mut taken: int = 0;
    assert(all.skip(0) =~= all);
    assert(r@ =~= usable_among(all, 0));
    while rest.len() > 0
        invariant
            0 <= taken <= all.len(),
            rest@ == all.skip(taken),
            r@ == usable_among(all, taken),
        decreases rest@.len(),
    {
        assert(rest@[0] == all[taken]);
        let model = rest.remove(0);
        assert(rest@ =~= all.skip(taken + 1));
        if model.is_usable_for_chat() {
            r.push(model);
        }
        proof {
            taken = taken + 1;
        }
    }
    r
}

/// The ids of the first `n` entries; where `picked`, of those that are offered
/// for selection.
pub open spec fn ids_among(models: Seq<CopilotModelInfo>, picked: bool, n: int) -> Seq<Seq<char>>
    decreases n,
{
    if n <= 0 {
        seq![]
    } else if picked && !models[n - 1].model_picker_enabled {
        ids_among(models, picked, n - 1)
    } else {
        ids_among(models, picked, n - 1).push(models[n - 1].id@)
    }
}

fn ids_of(models: &Vec<CopilotModelInfo>, picked: bool) -> (r: Vec<String>)
    ensures
        text_views(r@) == ids_among(models@, picked, models@.len() as int),
{
    let mut r: Vec<String> = Vec::new();
    let mut i: usize = 0;
    assert(text_views(r@) =~= seq![]);
    while i < models.len()
        invariant
            i <= models@.len(),
            text_views(r@) == ids_among(models@, picked, i as int),
        decreases models@.len() - i,
    {
        let ghost before = r@;
        if !picked || models[i].model_picker_enabled {
            r.push(models[i].id.clone());
            assert(text_views(r@) =~= text_views(before).push(models@[i as int].id@));
        }
        i = i + 1;
    }
    r
}

/// The models to offer for a catalog: those that are offered for selection, or
/// all where none is.
pub open spec fn display_ids(models: Seq<CopilotModelInfo>) -> Seq<Seq<char>> {
    let picked = ids_among(models, true, models.len() as int);
    if picked.len() == 0 {
        ids_among(models, false, models.len() as int)
    } else {
        picked
    }
}

/// The model to install for a catalog: the pinned one if the account can reach
/// it, else the catalog's default.
pub open spec fn chosen_model(
    pinned: Option<Seq<char>>,
    models: Seq<CopilotModelInfo>,
    family: Seq<char>,
) -> Seq<char> {
    match pinned {
        Some(model) => if ids_among(models, false, models.len() as int).contains(model) {
            model
        } else {
            default_for(models, family)
        },
        None => default_for(models, family),
    }
}

/// The pinned model in the environment's setting; a blank one pins nothing.
pub fn pinned_model<'a>(setting: Option<&'a str>) -> (r: Option<&'a str>)
    ensures
        str_option(r) == (match str_option(setting) {
            Some(text) => if trimmed(text).len() > 0 {
                Some(trimmed(text))
            } else {
                None
            },
            None => None,
        }),
{
    match setting {
        Some(text) => {
            let model = trim(text);
            if model.is_empty() {
                None
            } else {
                Some(model)
            }
        },
        None => None,
    }
}

/// Publishes the context windows of a catalog to the whole process.
pub fn publish_context_limits(limits: &mut ContextLimits, models: &Vec<CopilotModelInfo>)
    ensures
        final(limits)@ == limits_after(
            old(limits)@,
            stated_windows(models@, models@.len() as int),
        ),
{
    record_copilot_catalog_context_limits(limits, &windows_in_catalog(models));
}

/// Publishes the context windows that were filed. Where two ids differ only in
/// spelling, which window counts is open.
pub fn publish_cached_context_limits(limits: &mut ContextLimits, specs: &CatalogSpecs)
    ensures
        exists|entries: Seq<(String, usize)>|
            lists_windows(entries, specs@) && final(limits)@ == limits_after(
                old(limits)@,
                window_views(entries),
            ),
{
    let entries = windows_in_specs(specs);
    record_copilot_catalog_context_limits(limits, &entries);
    assert(lists_windows(entries@, specs@));
}

/// What is shared after a filed catalog was taken over.
pub open spec fn seeded(shared: SharedView, filed: PersistedView) -> SharedView {
    SharedView {
        fetched_models: filed.models,
        source: CatalogSource::Cached,
        specs: if filed.specs == Map::<Seq<char>, SpecView>::empty() {
            shared.specs
        } else {
            filed.specs
        },
        ..shared
    }
}

/// Takes over the filed catalog, if it may be used with `token`.
pub fn seed_cached_catalog(
    shared: &mut SharedCatalog,
    limits: &mut ContextLimits,
    filed: Option<PersistedCopilotCatalog>,
    token: &str,
)
    ensures
        (match filed {
            Some(catalog) => if usable_with(catalog@, token@) {
                &&& final(shared)@ == seeded(old(shared)@, catalog@)
                &&& if catalog@.specs == Map::<Seq<char>, SpecView>::empty() {
                    final(limits)@ == old(limits)@
                } else {
                    exists|entries: Seq<(String, usize)>|
                        lists_windows(entries, catalog@.specs) && final(limits)@ == limits_after(
                            old(limits)@,
                            window_views(entries),
                        )
                }
            } else {
                final(shared)@ == old(shared)@ && final(limits)@ == old(limits)@
            },
            None => final(shared)@ == old(shared)@ && final(limits)@ == old(limits)@,
        }),
{
    match load_persisted_catalog(filed, token) {
        Some(catalog) => {
            shared.fetched_models = catalog.models;
            shared.catalog_source = CatalogSource::Cached;
            if !catalog.specs.is_empty() {
                publish_cached_context_limits(limits, &catalog.specs);
                shared.model_specs = catalog.specs;
            }
        },
        None => {},
    }
}

/// Starts a session for a token: with what the environment sets, and with the
/// filed catalog where it may be used.
pub fn new_with_token(
    github_token: String,
    family: &str,
    model: Option<&str>,
    premium: Option<&str>,
    session_id: String,
    machine_id: String,
    filed: Option<PersistedCopilotCatalog>,
    limits: &mut ContextLimits,
) -> (r: (CopilotApiProvider, SharedCatalog, Credentials))
    ensures
        r.0@ == crate::provider::fresh_session(
            family@,
            str_option(model),
            str_option(premium),
            session_id@,
            machine_id@,
        ),
        r.1@ == (match filed {
            Some(catalog) => if usable_with(catalog@, github_token@) {
                seeded(nothing_shared(), catalog@)
            } else {
                nothing_shared()
            },
            None => nothing_shared(),
        }),
        r.2@ == (CredentialView { token: github_token@, generation: 1 }),
        (match filed {
            Some(catalog) => if usable_with(catalog@, github_token@) && catalog@.specs != Map::<
                Seq<char>,
                SpecView,
            >::empty() {
                exists|entries: Seq<(String, usize)>|
                    lists_windows(entries, catalog@.specs) && final(limits)@ == limits_after(
                        old(limits)@,
                        window_views(entries),
                    )
            } else {
                final(limits)@ == old(limits)@
            },
            None => final(limits)@ == old(limits)@,
        }),
{
    let provider = CopilotApiProvider::new(family, model, premium, session_id, machine_id);
    let mut shared = SharedCatalog::new();
    seed_cached_catalog(&mut shared, limits, filed, github_token.as_str());
    (provider, shared, Credentials::new(github_token))
}

/// The wire protocol for `model`, if the catalog describes it. Where it does
/// not, the catalog is to be fetched first: a guess can fail for good.
pub fn known_endpoint(shared: &SharedCatalog, model: &str) -> (r: Option<CopilotEndpoint>)
    ensures
        r == (if shared@.specs.contains_key(model@) {
            Some(shared@.specs[model@].endpoint)
        } else {
            None
        }),
{
    match shared.model_specs.get(model) {
        Some(spec) => Some(spec.endpoint),
        None => None,
    }
}

/// What is shared after a catalog was fetched to route a model.
pub open spec fn rerouted(shared: SharedView, fetched: Seq<CopilotModelInfo>) -> SharedView {
    let models = usable_of(fetched);
    SharedView { specs: specs_of(models, models.len() as int), ..shared }
}

/// The wire protocol for a model that the catalog did not describe, given what a
/// fetch came to, and the catalog to file. Where the fetch failed, Chat
/// Completions is tried.
pub fn endpoint_for_model(
    shared: &mut SharedCatalog,
    limits: &mut ContextLimits,
    model: &str,
    fetched: Option<Vec<CopilotModelInfo>>,
    token: &str,
    now_rfc3339: &str,
) -> (r: (CopilotEndpoint, Option<PersistedCopilotCatalog>))
    ensures
        (match fetched {
            Some(fetched) => {
                let models = usable_of(fetched@);
                &&& final(shared)@ == rerouted(old(shared)@, fetched@)
                &&& final(limits)@ == limits_after(
                    old(limits)@,
                    stated_windows(models, models.len() as int),
                )
                &&& r.0 == endpoint_in(final(shared)@.specs, model@)
                &&& filed_as(r.1, final(shared)@, token@, now_rfc3339@)
            },
            None => {
                &&& final(shared)@ == old(shared)@
                &&& final(limits)@ == old(limits)@
                &&& r.0 == CopilotEndpoint::ChatCompletions
                &&& r.1 is None
            },
        }),
{
    match fetched {
        Some(fetched) => {
            let models = keep_usable(fetched);
            publish_context_limits(limits, &models);
            shared.model_specs = CatalogSpecs::from_models(&models);
            let endpoint = shared.model_specs.endpoint_for(model);
            let filed = persist_catalog(
                &shared.fetched_models,
                &shared.model_specs,
                token,
                now_rfc3339,
            );
            (endpoint, filed)
        },
        None => (CopilotEndpoint::ChatCompletions, None),
    }
}

/// Whether `filed` is what is to be filed of what is shared.
pub open spec fn filed_as(
    filed: Option<PersistedCopilotCatalog>,
    shared: SharedView,
    token: Seq<char>,
    now: Seq<char>,
) -> bool {
    match filed {
        Some(catalog) => shared.fetched_models.len() > 0 && catalog@ == (PersistedView {
            models: shared.fetched_models,
            specs: shared.specs,
            credential_key: cache_key(token),
            fetched_at: now,
        }),
        None => shared.fetched_models.len() == 0,
    }
}

/// Takes over what a lookup of the seat reported.
pub fn note_seat(shared: &mut SharedCatalog, info: &CopilotUserInfo)
    ensures
        final(shared)@ == (SharedView {
            account_type: plan_kind(info.copilot_plan@),
            ..old(shared)@
        }),
{
    shared.account_type = info.account_type();
}

/// What is shared after a catalog was installed.
pub open spec fn installed(shared: SharedView, fetched: Seq<CopilotModelInfo>) -> SharedView {
    let models = usable_of(fetched);
    SharedView {
        fetched_models: display_ids(models),
        specs: specs_of(models, models.len() as int),
        source: CatalogSource::Live,
        ..shared
    }
}

/// Installs a fetched catalog: its windows and prices are published, its models
/// offered, and its default taken where no model was picked. Returns the catalog
/// to file.
pub fn detect_tier_and_set_default(
    provider: &mut CopilotApiProvider,
    shared: &mut SharedCatalog,
    limits: &mut ContextLimits,
    billing: &mut CatalogBilling,
    pinned: Option<&str>,
    family: &str,
    fetched: Vec<CopilotModelInfo>,
    token: &str,
    now_rfc3339: &str,
) -> (r: Option<PersistedCopilotCatalog>)
    ensures
        ({
            let models = usable_of(fetched@);
            &&& final(provider)@ == with_default(
                old(provider)@,
                chosen_model(str_option(pinned), models, family@),
            )
            &&& final(shared)@ == installed(old(shared)@, fetched@)
            &&& final(limits)@ == limits_after(
                old(limits)@,
                stated_windows(models, models.len() as int),
            )
            &&& final(billing)@ == billing_after(old(billing)@, models)
            &&& filed_as(r, final(shared)@, token@, now_rfc3339@)
        }),
{
    let models = keep_usable(fetched);
    record_catalog_billing(billing, &models);
    publish_context_limits(limits, &models);
    let picker_models = ids_of(&models, true);
    let all_ids = ids_of(&models, false);
    let default = choose_default_model(&models, family);
    let chosen = match pinned {
        Some(pinned) => {
            if lists(&all_ids, pinned) {
                owned(pinned)
            } else {
                default
            }
        },
        None => default,
    };
    provider.apply_catalog_default(chosen);
    assert(text_views(picker_models@).len() == picker_models@.len());
    shared.fetched_models = if picker_models.len() == 0 {
        all_ids
    } else {
        picker_models
    };
    shared.catalog_source = CatalogSource::Live;
    shared.model_specs = CatalogSpecs::from_models(&models);
    persist_catalog(&shared.fetched_models, &shared.model_specs, token, now_rfc3339)
}

/// Installs a fetched catalog only while the credential that fetched it still is
/// the credential; says whether it did, and returns the catalog to file.
pub fn commit_catalog(
    provider: &mut CopilotApiProvider,
    shared: &mut SharedCatalog,
    limits: &mut ContextLimits,
    billing: &mut CatalogBilling,
    credentials: &Credentials,
    generation: u64,
    pinned: Option<&str>,
    family: &str,
    fetched: Vec<CopilotModelInfo>,
    token: &str,
    now_rfc3339: &str,
) -> (r: (bool, Option<PersistedCopilotCatalog>))
    ensures
        r.0 == is_current(credentials@, token@, generation),
        r.0 ==> {
            let models = usable_of(fetched@);
            &&& final(provider)@ == with_default(
                old(provider)@,
                chosen_model(str_option(pinned), models, family@),
            )
            &&& final(shared)@ == installed(old(shared)@, fetched@)
            &&& final(limits)@ == limits_after(
                old(limits)@,
                stated_windows(models, models.len() as int),
            )
            &&& final(billing)@ == billing_after(old(billing)@, models)
            &&& filed_as(r.1, final(shared)@, token@, now_rfc3339@)
        },
        !r.0 ==> {
            &&& final(provider)@ == old(provider)@
            &&& final(shared)@ == old(shared)@
            &&& final(limits)@ == old(limits)@
            &&& final(billing)@ == old(billing)@
            &&& r.1 is None
        },
{
    if !credentials.credential_is_current(token, generation) {
        return (false, None);
    }
    let filed = detect_tier_and_set_default(
        provider,
        shared,
        limits,
        billing,
        pinned,
        family,
        fetched,
        token,
        now_rfc3339,
    );
    (true, filed)
}

/// Forgets everything that is known of the account, so that it is fetched anew.
pub fn clear_catalog(
    shared: &mut SharedCatalog,
    limits: &mut ContextLimits,
    billing: &mut CatalogBilling,
)
    ensures
        final(shared)@ == nothing_shared(),
        final(limits)@ == Map::<Seq<char>, usize>::empty(),
        final(billing)@ == Map::<Seq<char>, CopilotCatalogBilling>::empty(),
{
    *shared = SharedCatalog::new();
    clear_copilot_catalog_context_limits(limits);
    clear_catalog_billing(billing);
}

/// The endpoints that are known after a login: the endpoint of the token that is
/// used from now on is looked up anew even where the token stayed the same.
pub open spec fn bases_after_invalidation(
    known: BasesView,
    now: CredentialView,
    fresh: Option<Seq<char>>,
) -> BasesView {
    let after = bases_after_login(known, now, fresh);
    let token = relogged(now, fresh).token;
    if token.len() > 0 {
        forgotten(after, token)
    } else {
        after
    }
}

/// Takes over a login or a logout: the credential is reloaded, and what depends
/// on it is forgotten.
pub fn invalidate_credentials_and_catalog(
    credentials: &mut Credentials,
    fresh: Option<&str>,
    known: &mut DiscoveredApiBases,
    shared: &mut SharedCatalog,
    limits: &mut ContextLimits,
    billing: &mut CatalogBilling,
)
    ensures
        final(credentials)@ == relogged(old(credentials)@, str_option(fresh)),
        final(known)@ == bases_after_invalidation(
            old(known)@,
            old(credentials)@,
            str_option(fresh),
        ),
        final(shared)@ == nothing_shared(),
        final(limits)@ == Map::<Seq<char>, usize>::empty(),
        final(billing)@ == Map::<Seq<char>, CopilotCatalogBilling>::empty(),
{
    credentials.reload_credentials_now(fresh, known);
    match credentials.get_bearer_token() {
        Ok(token) => {
            clear_discovered_api_base_for(known, token.as_str());
        },
        Err(_) => {},
    }
    clear_catalog(shared, limits, billing);
}

/// A pinned model is installed only if the account can reach it; and what is
/// installed is always offered, wherever the account offers anything.
pub proof fn law_installed_model_is_offered(
    pinned: Option<Seq<char>>,
    models: Seq<CopilotModelInfo>,
    family: Seq<char>,
)
    requires
        exists|i: int| 0 <= i < models.len() && !(#[trigger] models[i]).disabled(),
    ensures
        ids_among(models, false, models.len() as int).contains(
            chosen_model(pinned, models, family),
        ),
{
    crate::copilot_catalog::law_default_is_offered(models, family);
    let i = choose|i: int|
        0 <= i < models.len() && !(#[trigger] models[i]).disabled() && models[i].id@ == default_for(
            models,
            family,
        );
    lemma_id_listed(models, models.len() as int, i);
}

proof fn lemma_id_listed(models: Seq<CopilotModelInfo>, n: int, i: int)
    requires
        0 <= i < n <= models.len(),
    ensures
        ids_among(models, false, n).contains(models[i].id@),
    decreases n,
{
    let before = ids_among(models, false, n - 1);
    let after = ids_among(models, false, n);
    if i == n - 1 {
        assert(after[after.len() - 1] == models[i].id@);
    } else {
        lemma_id_listed(models, n - 1, i);
        let k = choose|k: int| 0 <= k < before.len() && before[k] == models[i].id@;
        assert(after[k] == models[i].id@);
    }
}

/// Everything that is usable can serve a turn, so a filtered catalog never
/// offers a model that the account's policy disables.
pub proof fn law_only_usable_models_are_kept(models: Seq<CopilotModelInfo>, k: int)
    requires
        0 <= k < usable_of(models).len(),
    ensures
        usable_of(models)[k].usable(),
        !usable_of(models)[k].disabled(),
{
    lemma_kept_usable(models, models.len() as int, k);
}

proof fn lemma_kept_usable(models: Seq<CopilotModelInfo>, n: int, k: int)
    requires
        0 <= n <= models.len(),
        0 <= k < usable_among(models, n).len(),
    ensures
        usable_among(models, n)[k].usable(),
    decreases n,
{
    if n > 0 {
        if k < usable_among(models, n - 1).len() {
            lemma_kept_usable(models, n - 1, k);
        }
    }
}

} // verus!
