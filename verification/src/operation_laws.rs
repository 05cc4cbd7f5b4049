//! What holds of every call: how the operations of the library follow upon each
//! other, and what each leaves as it was.

use crate::catalog_store::{load_persisted_catalog, persist_catalog, PersistedCopilotCatalog};
use crate::catalog::CatalogSpecs;
use crate::context_limit_sync::ContextBudget;
use crate::context_limits::{context_limit_for_model_with_provider, ContextLimits};
use crate::copilot_catalog::{
    catalog_billing_for, models_failure, models_url, record_catalog_billing, CatalogBilling,
    CopilotModelInfo,
};
use crate::copilot_catalog_pricing::CopilotCatalogBilling;
use crate::copilot_enterprise::{
    api_base_for, cache_key, clear_discovered_api_base, clear_discovered_api_base_for,
    discovered_api_base_for, ensure_api_base, ensure_request_api_base,
    record_discovered_api_base_for, record_discovered_api_base_if_current, record_seat,
    user_info_failure, user_info_url, CopilotDeployment, CopilotUserInfo, DeploymentView,
    DiscoveredApiBases, Discovery,
};
use crate::credentials::{refresh_wait_ms, Credentials};
use crate::herdr::{AgentState, Report, Reporter, Target, WorkerCommand, WorkerState};
use crate::herdr_sync::{poll_step, reads_results, PollCommand, PollInput, PollNext};
use crate::keyed::text_views;
use crate::message::{message_views, ChatMessage, ToolDefinition};
use crate::multi_provider::{copilot_catalog_owns, ActiveProvider, ProviderSlots};
use crate::provider::{
    get_or_create_machine_id, startup_prefetch_grace_ms, CopilotApiProvider, PremiumMode,
    SharedCatalog, Turn,
};
use crate::session_provider::{for_session, SessionProviders};
use crate::startup::{clear_catalog, commit_catalog, known_endpoint, note_seat, pinned_model};
use crate::text::{begins, decimal, trimmed, white_space, without_char};
use crate::text_laws::{
    law_end_loses_one_character, law_numbers_read_back, law_trimmed_text_stays,
    law_words_write_no_number,
};
use crate::update_nightly::{
    check_manual_update, nightly_is_update, nightly_release_for_commit, one_commit, short_hash,
    validate_artifact_hash, verify_downloaded_binary, GitHubRelease, UpdateCheck,
};
use vstd::prelude::*;

verus! {

/// A model that was picked is the session's model from then on: no catalog's default
/// takes its place, and nothing else of the session changes.
pub proof fn law_picked_model_survives_the_catalog(
    picking: &mut CopilotApiProvider,
    model: &str,
    picked: Result<(), String>,
    applying: &mut CopilotApiProvider,
    default: String,
    read: String,
)
    requires
        call_ensures(CopilotApiProvider::set_model, (picking, model), picked),
        *final(picking) == *old(applying),
        call_ensures(CopilotApiProvider::apply_catalog_default, (applying, default), ()),
        call_ensures(CopilotApiProvider::model, (&*final(applying),), read),
    ensures
        picked is Ok ==> read@ == final(picking)@.model && final(applying)@ == final(picking)@,
        picked is Ok && model@.len() > 0 && !white_space(model@[0]) && !white_space(model@.last())
            && !begins(model@, "copilot:"@) ==> read@ == model@,
        picked is Err ==> final(picking)@ == old(picking)@,
        picked is Err && !old(picking)@.explicit ==> read@ == default@,
        final(applying)@.user_turns == old(picking)@.user_turns,
        final(applying)@.premium_mode == old(picking)@.premium_mode,
        final(applying)@.effort == old(picking)@.effort,
        final(applying)@.session_id == old(picking)@.session_id,
{
    if model@.len() > 0 && !white_space(model@[0]) && !white_space(model@.last()) {
        law_trimmed_text_stays(model@);
    }
}

/// A premium mode that was set is the mode that is read, and nothing else changes.
pub proof fn law_set_mode_is_read(
    setting: &mut CopilotApiProvider,
    mode: PremiumMode,
    read: PremiumMode,
)
    requires
        call_ensures(CopilotApiProvider::set_premium_mode, (setting, mode), ()),
        call_ensures(CopilotApiProvider::get_premium_mode, (&*final(setting),), read),
    ensures
        read == mode,
        final(setting)@.model == old(setting)@.model,
        final(setting)@.explicit == old(setting)@.explicit,
        final(setting)@.user_turns == old(setting)@.user_turns,
        final(setting)@.effort == old(setting)@.effort,
{
}

/// A fork starts with all that its session has chosen.
pub proof fn law_fork_starts_alike(session: &CopilotApiProvider, fork: CopilotApiProvider)
    requires
        call_ensures(CopilotApiProvider::fork, (session,), fork),
    ensures
        fork@ == session@,
{
}

/// An effort that was accepted is one that the catalog lists for the session's model,
/// and it is read back; a refused one changes nothing.
pub proof fn law_accepted_effort_is_read(
    setting: &mut CopilotApiProvider,
    catalog: &SharedCatalog,
    effort: &str,
    set: Result<(), String>,
    read: Option<String>,
)
    requires
        call_ensures(CopilotApiProvider::set_reasoning_effort, (setting, catalog, effort), set),
        call_ensures(CopilotApiProvider::current_reasoning_effort, (&*final(setting),), read),
    ensures
        set is Err ==> final(setting)@ == old(setting)@,
        set is Ok ==> catalog@.specs.contains_key(old(setting)@.model),
        set is Ok ==> read is Some && catalog@.specs[old(setting)@.model].reasoning_efforts.contains(
            read->0@,
        ),
        final(setting)@.model == old(setting)@.model,
        final(setting)@.explicit == old(setting)@.explicit,
        final(setting)@.premium_mode == old(setting)@.premium_mode,
        final(setting)@.user_turns == old(setting)@.user_turns,
{
    crate::provider::law_efforts_are_those_advertised(
        crate::provider::efforts_in(catalog@.specs, old(setting)@.model),
        old(setting)@.model,
        effort@,
        crate::text::lowered(trimmed(effort@)),
    );
}

/// A turn counts one more turn of the user's exactly where it says that it is the
/// user's, and changes nothing else of the session. With one premium request for the
/// session, the next turn is never the user's again.
pub proof fn law_turns_are_counted(
    first: &mut CopilotApiProvider,
    second: &mut CopilotApiProvider,
    catalog: &SharedCatalog,
    said: &Vec<ChatMessage>,
    more: &Vec<ChatMessage>,
    tools: &Vec<ToolDefinition>,
    system: &str,
    one: Turn,
    two: Turn,
)
    requires
        call_ensures(CopilotApiProvider::begin_turn, (first, catalog, said, tools, system), one),
        *final(first) == *old(second),
        call_ensures(CopilotApiProvider::begin_turn, (second, catalog, more, tools, system), two),
        old(first)@.user_turns < u64::MAX,
    ensures
        one.is_user_initiated ==> final(first)@.user_turns == old(first)@.user_turns + 1,
        !one.is_user_initiated ==> final(first)@.user_turns == old(first)@.user_turns,
        final(first)@.model == old(first)@.model,
        final(first)@.explicit == old(first)@.explicit,
        final(first)@.premium_mode == old(first)@.premium_mode,
        final(first)@.effort == old(first)@.effort,
        old(first)@.premium_mode is OnePerSession && one.is_user_initiated
            ==> !two.is_user_initiated,
        old(first)@.premium_mode is Zero ==> !one.is_user_initiated && !two.is_user_initiated,
        said@.len() == 0 && old(first)@.premium_mode is Normal ==> one.is_user_initiated,
        one.tools@.len() == tools@.len(),
{
    assert(message_views(said@).len() == said@.len());
    assert(one@.tools.len() == tools@.len());
    assert(one@.is_user_initiated == one.is_user_initiated);
    assert(two@.is_user_initiated == two.is_user_initiated);
}

/// The id on file is the machine's, without the white space around it, and stays.
/// Without one a fresh id is made of the UUID without its dashes, and has to be filed.
pub proof fn law_machine_keeps_its_id(on_file: &str, fresh: &str, r: (String, bool), n: (String, bool))
    requires
        call_ensures(get_or_create_machine_id, (Some(on_file), fresh), r),
        call_ensures(get_or_create_machine_id, (None::<&str>, fresh), n),
    ensures
        trimmed(on_file@).len() > 0 ==> r.0@ == trimmed(on_file@) && !r.1,
        trimmed(on_file@).len() == 0 ==> r.0@ == n.0@ && r.1,
        n.1 && !n.0@.contains('-'),
        !fresh@.contains('-') ==> n.0@ == fresh@,
{
    crate::text_laws::law_only_one_character_is_left_out(fresh@, seq![], '-', '-');
    if !fresh@.contains('-') {
        lemma_nothing_left_out(fresh@, '-');
    }
}

proof fn lemma_nothing_left_out(s: Seq<char>, c: char)
    requires
        !s.contains(c),
    ensures
        without_char(s, c) == s,
    decreases s.len(),
{
    if s.len() > 0 {
        assert(s.contains(s.last()));
        assert forall|i: int| 0 <= i < s.drop_last().len() implies s.drop_last()[i] != c by {
            assert(s.contains(s[i]));
        }
        lemma_nothing_left_out(s.drop_last(), c);
        assert(s.drop_last().push(s.last()) =~= s);
    }
}

/// The grace that the environment sets is the number that it writes, and two seconds
/// where it writes none.
pub proof fn law_grace_is_what_is_written(n: u64, text: &str, words: &str, r: u64, w: u64, d: u64)
    requires
        text@ == decimal(n as nat),
        words@.len() == 0 || (words@[0] != '+' && !('0' <= words@[0] <= '9')),
        call_ensures(startup_prefetch_grace_ms, (Some(text),), r),
        call_ensures(startup_prefetch_grace_ms, (Some(words),), w),
        call_ensures(startup_prefetch_grace_ms, (None::<&str>,), d),
    ensures
        r == n,
        w == 2000,
        d == 2000,
{
    law_numbers_read_back(n as nat);
    law_words_write_no_number(words@, 0);
}

/// A fetch is put off only while a catalog is loaded and the grace has not passed.
pub proof fn law_prefetch_waits_for_the_grace(
    catalog: &SharedCatalog,
    elapsed: u128,
    grace: u64,
    wanted: bool,
    loaded: bool,
)
    requires
        call_ensures(SharedCatalog::wants_prefetch, (catalog, elapsed, grace), wanted),
        call_ensures(SharedCatalog::has_catalog, (catalog,), loaded),
    ensures
        !loaded ==> wanted,
        elapsed >= grace ==> wanted,
        loaded && elapsed < grace ==> !wanted,
        loaded <==> catalog.fetched_models@.len() > 0,
{
}

/// What is shown, offered and switched to are the very same models.
pub proof fn law_offered_models_are_the_shown(
    catalog: &SharedCatalog,
    ids: Vec<String>,
    shown: Vec<String>,
    switched: Vec<String>,
)
    requires
        call_ensures(SharedCatalog::available_model_ids, (catalog,), ids),
        call_ensures(SharedCatalog::available_models_display, (catalog,), shown),
        call_ensures(SharedCatalog::available_models_for_switching, (catalog,), switched),
    ensures
        text_views(ids@) == text_views(catalog.fetched_models@),
        text_views(shown@) == text_views(ids@),
        text_views(switched@) == text_views(ids@),
{
}

/// A token is handed out as it was given; without one the login is asked for.
pub proof fn law_given_token_is_handed_out(
    given: String,
    made: Credentials,
    r: Result<String, String>,
)
    requires
        call_ensures(Credentials::new, (given,), made),
        call_ensures(Credentials::get_bearer_token, (&made,), r),
    ensures
        given@.len() > 0 ==> r is Ok && r->Ok_0@ == given@,
        given@.len() == 0 ==> r is Err && r->Err_0@
            == "GitHub Copilot credentials are no longer available. Run `jcode login --provider copilot`."@,
        made@.generation == 1,
{
}

/// After a login the new token is handed out, and what was seen before is outdated.
pub proof fn law_login_changes_the_token(
    credentials: &mut Credentials,
    known: &mut DiscoveredApiBases,
    fresh: &str,
    r: Result<String, String>,
    current: bool,
    token: &str,
)
    requires
        call_ensures(Credentials::reload_credentials_now, (credentials, Some(fresh), known), ()),
        call_ensures(Credentials::get_bearer_token, (&*final(credentials),), r),
        call_ensures(
            Credentials::credential_is_current,
            (&*final(credentials), token, old(credentials)@.generation),
            current,
        ),
    ensures
        fresh@.len() > 0 ==> r is Ok && r->Ok_0@ == fresh@,
        !current,
{
}

/// A refresh is waited for in steps of twenty milliseconds while it runs, for ten
/// seconds at the most.
pub proof fn law_refresh_is_waited_for(nanos: u128, running: Option<u64>, over: Option<u64>)
    requires
        call_ensures(refresh_wait_ms, (true, nanos), running),
        call_ensures(refresh_wait_ms, (false, nanos), over),
    ensures
        over is None,
        nanos < 10_000_000_000 ==> running == Some(20u64),
        nanos >= 10_000_000_000 ==> running is None,
{
}

/// Every address of a deployment stands under its own host.
pub proof fn law_addresses_stand_under_the_host(
    deployment: &CopilotDeployment,
    device: String,
    access: String,
    user: String,
    shown: String,
)
    requires
        call_ensures(CopilotDeployment::device_code_url, (deployment,), device),
        call_ensures(CopilotDeployment::access_token_url, (deployment,), access),
        call_ensures(user_info_url, (deployment,), user),
        call_ensures(CopilotDeployment::to_text, (deployment,), shown),
    ensures
        deployment@ is DotCom ==> {
            &&& device@ == "https://"@ + "github.com"@ + "/login/device/code"@
            &&& access@ == "https://"@ + "github.com"@ + "/login/oauth/access_token"@
            &&& user@ == "https://api.github.com"@ + "/copilot_internal/user"@
            &&& shown@ == "github.com"@
        },
        deployment@ matches DeploymentView::Enterprise(domain) ==> {
            &&& device@ == "https://"@ + domain + "/login/device/code"@
            &&& access@ == "https://"@ + domain + "/login/oauth/access_token"@
            &&& user@ == "https://api."@ + domain + "/copilot_internal/user"@
            &&& shown@ == domain + " (enterprise)"@
        },
{
}

/// A base that was recorded for a token is the one that its requests go to, and the
/// one that a discovery uses, until it is forgotten.
pub proof fn law_recorded_base_is_used(
    recording: &mut DiscoveredApiBases,
    forgetting: &mut DiscoveredApiBases,
    token: &str,
    base: &str,
    deployment: &CopilotDeployment,
    used: String,
    found: Discovery,
    left: Option<String>,
    plain: String,
)
    requires
        base@.len() > 0,
        !white_space(base@[0]) && !white_space(base@.last()),
        base@.last() != '/',
        call_ensures(record_discovered_api_base_for, (recording, token, base), ()),
        call_ensures(api_base_for, (&*final(recording), token, deployment), used),
        call_ensures(ensure_api_base, (&*final(recording), token, 0u32), found),
        *final(recording) == *old(forgetting),
        call_ensures(clear_discovered_api_base_for, (forgetting, token), ()),
        call_ensures(discovered_api_base_for, (&*final(forgetting), token), left),
        call_ensures(api_base_for, (&*final(forgetting), token, deployment), plain),
    ensures
        used@ == base@,
        found is Use && found->Use_0@ == base@,
        left is None,
        deployment@ is DotCom ==> plain@ == "https://api.githubcopilot.com"@,
        deployment@ matches DeploymentView::Enterprise(domain) ==> plain@
            == "https://copilot-api."@ + domain,
{
    law_trimmed_text_stays(base@);
    law_end_loses_one_character(base@, '/');
}

/// A base that was found for an older login is not recorded. One that was found for
/// this login is.
pub proof fn law_stale_discoveries_are_dropped(
    recording: &mut DiscoveredApiBases,
    seating: &mut DiscoveredApiBases,
    token: &str,
    base: &str,
    info: &CopilotUserInfo,
    deployment: &CopilotDeployment,
    generation: u64,
    read: Option<String>,
    seat: Option<String>,
)
    requires
        call_ensures(
            record_discovered_api_base_if_current,
            (recording, token, base, generation),
            (),
        ),
        call_ensures(discovered_api_base_for, (&*final(recording), token), read),
        call_ensures(record_seat, (seating, token, info, deployment, generation), ()),
        call_ensures(discovered_api_base_for, (&*final(seating), token), seat),
    ensures
        generation != old(recording)@.generation ==> final(recording)@ == old(recording)@,
        generation != old(seating)@.generation ==> final(seating)@ == old(seating)@,
        generation == old(recording)@.generation && base@.len() > 0 && !white_space(base@[0])
            && !white_space(base@.last()) && base@.last() != '/' ==> read is Some && read->0@
            == base@,
        generation == old(seating)@.generation && info.endpoints is None && deployment@ is DotCom
            ==> seat is Some && seat->0@ == "https://api.githubcopilot.com"@,
{
    if base@.len() > 0 && !white_space(base@[0]) && !white_space(base@.last()) && base@.last()
        != '/' {
        law_trimmed_text_stays(base@);
        law_end_loses_one_character(base@, '/');
    }
    reveal_strlit("https://api.githubcopilot.com");
    let home = "https://api.githubcopilot.com"@;
    assert(home.len() == 29 && home[0] == 'h' && home[28] == 'm');
    law_trimmed_text_stays(home);
    law_end_loses_one_character(home, '/');
}

/// A discovery that was interrupted three times is given up. Before that it uses what
/// is known, and looks up what is not.
pub proof fn law_discovery_gives_up_after_three(
    known: &DiscoveredApiBases,
    token: &str,
    lookups: u32,
    r: Discovery,
    base: Option<String>,
)
    requires
        call_ensures(ensure_api_base, (known, token, lookups), r),
        call_ensures(discovered_api_base_for, (known, token), base),
    ensures
        r is GiveUp <==> lookups >= 3,
        r is LookUp <==> lookups < 3 && base is None,
        lookups < 3 && base is Some ==> r is Use && r->Use_0@ == base->0@,
{
}

/// A request goes to the base that was found for it, and without one to where the
/// token's requests go.
pub proof fn law_requests_go_to_the_found_base(
    base: String,
    known: &DiscoveredApiBases,
    token: &str,
    deployment: &CopilotDeployment,
    found: String,
    unfound: String,
    usual: String,
)
    requires
        call_ensures(ensure_request_api_base, (Some(base), known, token, deployment), found),
        call_ensures(ensure_request_api_base, (None::<String>, known, token, deployment), unfound),
        call_ensures(api_base_for, (known, token, deployment), usual),
    ensures
        found@ == base@,
        unfound@ == usual@,
{
}

/// Forgetting every base leaves none, of any token, and outdates what is being looked
/// up.
pub proof fn law_all_bases_are_forgotten(
    known: &mut DiscoveredApiBases,
    token: &str,
    left: Option<String>,
)
    requires
        call_ensures(clear_discovered_api_base, (known,), ()),
        call_ensures(discovered_api_base_for, (&*final(known), token), left),
    ensures
        left is None,
        final(known)@.generation != old(known)@.generation,
{
}

/// What is asked of the service is asked under its base, and a refusal is told with
/// its status and its words.
pub proof fn law_lookups_are_told_with_their_words(
    base: &str,
    status: &str,
    body: &str,
    url: String,
    models: String,
    seat: String,
)
    requires
        call_ensures(models_url, (base,), url),
        call_ensures(models_failure, (status, body), models),
        call_ensures(user_info_failure, (status, body), seat),
    ensures
        url@ == base@ + "/models"@,
        models@ == "Copilot models fetch failed (HTTP "@ + status@ + "): "@ + body@,
        seat@ == "Copilot seat lookup failed (HTTP "@ + status@ + "): "@ + body@,
{
}

/// A price that a catalog states last for a model is the one that is read for it.
pub proof fn law_recorded_price_is_read(
    billing: &mut CatalogBilling,
    models: &Vec<CopilotModelInfo>,
    i: int,
    id: &str,
    read: Option<CopilotCatalogBilling>,
)
    requires
        0 <= i < models@.len(),
        models@[i].prices() is Some,
        forall|j: int|
            i < j < models@.len() && (#[trigger] models@[j]).id@ == models@[i].id@
                ==> models@[j].prices() is None,
        id@ == models@[i].id@,
        call_ensures(record_catalog_billing, (billing, models), ()),
        call_ensures(catalog_billing_for, (&*final(billing), id), read),
    ensures
        read == models@[i].prices(),
{
    crate::catalog_laws::law_fetched_prices_replace_the_known(old(billing)@, models@, i, id@);
}

/// A catalog that was filed for a token is loaded for that token, whole. For a token of
/// another fingerprint it is not, and one without a model is not filed.
pub proof fn law_filed_catalog_is_loaded(
    models: &Vec<String>,
    specs: &CatalogSpecs,
    token: &str,
    other: &str,
    now: &str,
    filed: Option<PersistedCopilotCatalog>,
    mine: Option<PersistedCopilotCatalog>,
    theirs: Option<PersistedCopilotCatalog>,
)
    requires
        call_ensures(persist_catalog, (models, specs, token, now), filed),
        call_ensures(load_persisted_catalog, (filed, token), mine),
        call_ensures(load_persisted_catalog, (filed, other), theirs),
    ensures
        models@.len() == 0 ==> filed is None && mine is None,
        models@.len() > 0 ==> mine is Some && mine == filed,
        mine matches Some(catalog) ==> catalog@.models == text_views(models@) && catalog@.specs
            == specs@ && catalog@.fetched_at == now@ && catalog@.credential_key == cache_key(token@),
        cache_key(other@) != cache_key(token@) ==> theirs is None,
{
    assert(text_views(models@).len() == models@.len());
}

/// A new window of the provider's is taken over and warned of again; a remote session,
/// or a window that stays, changes nothing. Taken over once, it stays.
pub proof fn law_new_window_is_taken_over(
    budget: &mut ContextBudget,
    again: &mut ContextBudget,
    live: usize,
    r: Option<usize>,
    remote: bool,
    s: Option<usize>,
)
    requires
        call_ensures(ContextBudget::sync_context_limit_from_provider, (budget, remote, live), r),
        *final(budget) == *old(again),
        call_ensures(ContextBudget::sync_context_limit_from_provider, (again, remote, live), s),
    ensures
        remote ==> *final(budget) == *old(budget) && r is None,
        !remote ==> final(budget).context_limit == live,
        !remote && live != old(budget).context_limit ==> r == Some(live)
            && !final(budget).context_warning_shown,
        !remote && live == old(budget).context_limit ==> r is None
            && final(budget).context_warning_shown == old(budget).context_warning_shown,
        s is None && *final(again) == *old(again),
{
}

/// What the catalog knows of a window counts for Copilot alone; every other provider
/// goes by the table, and so does Copilot where the catalog knows nothing.
pub proof fn law_catalog_windows_are_copilots(
    known: &ContextLimits,
    model: &str,
    provider: &str,
    table: Option<usize>,
    r: Option<usize>,
    nobody: Option<usize>,
)
    requires
        call_ensures(
            context_limit_for_model_with_provider,
            (known, model, Some(provider), table),
            r,
        ),
        call_ensures(
            context_limit_for_model_with_provider,
            (known, model, None::<&str>, table),
            nobody,
        ),
    ensures
        provider@ != "copilot"@ ==> r == table,
        nobody == table,
        crate::context_limits::window_in(known@, model@) is None ==> r == table,
        provider@ == "copilot"@ && crate::context_limits::window_in(known@, model@) is Some ==> r
            == crate::context_limits::window_in(known@, model@),
{
}

/// A pin is the setting without the white space around it; a blank is no pin.
pub proof fn law_pin_is_the_setting(text: &str, r: Option<&str>, n: Option<&str>)
    requires
        call_ensures(pinned_model, (Some(text),), r),
        call_ensures(pinned_model, (None::<&str>,), n),
    ensures
        n is None,
        trimmed(text@).len() == 0 <==> r is None,
        r matches Some(pin) ==> pin@ == trimmed(text@),
{
}

/// A catalog that was fetched for an older login changes nothing and is not filed. One
/// that was fetched for this login is filed for it, with the models that are shown.
pub proof fn law_stale_catalogs_are_dropped(
    provider: &mut CopilotApiProvider,
    shared: &mut SharedCatalog,
    limits: &mut ContextLimits,
    billing: &mut CatalogBilling,
    credentials: &Credentials,
    generation: u64,
    pinned: Option<&str>,
    family: &str,
    fetched: Vec<CopilotModelInfo>,
    token: &str,
    now: &str,
    r: (bool, Option<PersistedCopilotCatalog>),
)
    requires
        call_ensures(
            commit_catalog,
            (
                provider,
                shared,
                limits,
                billing,
                credentials,
                generation,
                pinned,
                family,
                fetched,
                token,
                now,
            ),
            r,
        ),
    ensures
        credentials@.token == token@ && credentials@.generation == generation <==> r.0,
        !r.0 ==> final(provider)@ == old(provider)@ && final(shared)@ == old(shared)@
            && final(limits)@ == old(limits)@ && final(billing)@ == old(billing)@ && r.1 is None,
        r.0 ==> final(shared)@.source is Live,
        r.0 && old(provider)@.explicit ==> final(provider)@ == old(provider)@,
        r.0 ==> (r.1 matches Some(filed) ==> filed@.models == final(shared)@.fetched_models
            && filed@.specs == final(shared)@.specs && filed@.credential_key == cache_key(token@)
            && filed@.fetched_at == now@),
        r.0 ==> (r.1 is None <==> final(shared)@.fetched_models.len() == 0),
{
}

/// A cleared catalog shows no model and knows of none.
pub proof fn law_cleared_catalog_is_empty(
    shared: &mut SharedCatalog,
    limits: &mut ContextLimits,
    billing: &mut CatalogBilling,
    model: &str,
    loaded: bool,
    endpoint: Option<crate::copilot_catalog::CopilotEndpoint>,
    price: Option<CopilotCatalogBilling>,
)
    requires
        call_ensures(clear_catalog, (shared, limits, billing), ()),
        call_ensures(SharedCatalog::has_catalog, (&*final(shared),), loaded),
        call_ensures(known_endpoint, (&*final(shared), model), endpoint),
        call_ensures(catalog_billing_for, (&*final(billing), model), price),
    ensures
        !loaded,
        endpoint is None,
        price is None,
{
}

/// A seat tells the plan and nothing else.
pub proof fn law_seat_tells_the_plan(shared: &mut SharedCatalog, info: &CopilotUserInfo)
    requires
        call_ensures(note_seat, (shared, info), ()),
    ensures
        final(shared)@.account_type == crate::copilot_enterprise::plan_kind(info.copilot_plan@),
        final(shared)@.fetched_models == old(shared)@.fetched_models,
        final(shared)@.specs == old(shared)@.specs,
        final(shared)@.source == old(shared)@.source,
{
}

/// A session runs on the provider that was recorded for it while that lives, and on
/// the template otherwise.
pub proof fn law_recorded_provider_serves_its_session(
    providers: &mut SessionProviders,
    session: &str,
    other: &str,
    provider: u64,
    template: u64,
    alive: &Vec<u64>,
    mine: u64,
    theirs: u64,
    before: u64,
)
    requires
        call_ensures(SessionProviders::record_session_provider, (providers, session, provider, alive), ()),
        call_ensures(for_session, (&*final(providers), session, template, alive), mine),
        call_ensures(for_session, (&*final(providers), other, template, alive), theirs),
        call_ensures(for_session, (&*old(providers), other, template, alive), before),
    ensures
        alive@.contains(provider) ==> mine == provider,
        !alive@.contains(provider) ==> mine == template,
        other@ != session@ ==> theirs == before,
{
}

/// Only an active Copilot with a runtime owns a model of its catalog.
pub proof fn law_only_active_copilot_owns(
    active: ActiveProvider,
    slots: &ProviderSlots,
    switching: &Vec<String>,
    display: &Vec<String>,
    model: &str,
    r: bool,
    listed: bool,
)
    requires
        call_ensures(copilot_catalog_owns, (active, slots, switching, display, model), r),
        call_ensures(
            crate::multi_provider::copilot_catalog_lists,
            (switching, display, model),
            listed,
        ),
    ensures
        r <==> active is Copilot && slots.copilot && listed,
{
}

/// A reporter inside the terminal speaks from the number that it was given; outside of
/// it there is none to speak to.
pub proof fn law_reporter_speaks_inside_the_terminal(
    env: &str,
    pane: &str,
    seq: u64,
    inside: (Reporter, Option<Target>),
    outside: (Reporter, Option<Target>),
)
    requires
        call_ensures(
            Reporter::from_values_with_seq,
            (Some(env), None::<&str>, Some(pane), seq),
            inside,
        ),
        call_ensures(
            Reporter::from_values_with_seq,
            (None::<&str>, None::<&str>, Some(pane), seq),
            outside,
        ),
    ensures
        trimmed(env@) == "1"@ && trimmed(pane@).len() > 0 ==> inside.0@.enabled && inside.0@.next_seq
            == seq && inside.0@.last_report is None && inside.1 is Some && inside.1->0.pane_id@
            == trimmed(pane@) && inside.1->0.binary@ == "herdr"@,
        trimmed(env@) != "1"@ || trimmed(pane@).len() == 0 ==> !inside.0@.enabled && inside.1 is None,
        !outside.0@.enabled && outside.1 is None,
{
}

/// A report that failed is tried again, unless something newer waits; what waits is
/// left alone.
pub proof fn law_failed_report_waits_for_news(
    failing: &mut WorkerState,
    taking: &mut WorkerState,
    report: Report,
    next: Option<WorkerCommand>,
)
    requires
        call_ensures(WorkerState::report_failed, (failing, report), ()),
        *final(failing) == *old(taking),
        call_ensures(WorkerState::next_command, (taking,), next),
    ensures
        old(failing)@.pending.len() == 0 && old(failing)@.release_seq is None ==> (
        next matches Some(WorkerCommand::Report(again)) && again@ == report@),
        old(failing)@.pending.len() > 0 || old(failing)@.release_seq is Some ==> final(failing)@
            == old(failing)@,
        old(failing)@.pending.len() > 0 ==> (next matches Some(WorkerCommand::Report(first))
            && first@ == old(failing)@.pending[0]),
        old(failing)@.pending.len() == 0 && old(failing)@.release_seq is Some ==> (
        next matches Some(WorkerCommand::Release(seq)) && Some(seq) == old(failing)@.release_seq),
{
    match next {
        Some(command) => {
            assert(Some(command@) == crate::herdr::next_work(old(taking)@).0);
        },
        None => {},
    }
}

/// A poll asks for the session that was tracked last, and stops where it is told to or
/// nobody is left to tell it.
pub proof fn law_poll_asks_for_the_tracked(
    tracking: &mut Option<String>,
    idling: &mut Option<String>,
    stopping: &mut Option<String>,
    leaving: &mut Option<String>,
    session: String,
    asked: PollNext,
    again: PollNext,
    stopped: PollNext,
    left: PollNext,
)
    requires
        call_ensures(poll_step, (tracking, PollInput::Command(PollCommand::Track(session))), asked),
        *final(tracking) == *old(idling),
        call_ensures(poll_step, (idling, PollInput::Timeout), again),
        call_ensures(poll_step, (stopping, PollInput::Command(PollCommand::Stop)), stopped),
        call_ensures(poll_step, (leaving, PollInput::Disconnected), left),
    ensures
        asked is Ask && asked->Ask_0@ == session@,
        again is Ask && again->Ask_0@ == session@,
        stopped is Stop,
        left is Stop,
{
}

/// Answers of the poll are read for a session that nothing else blocks.
pub proof fn law_answers_are_read_for_free_sessions(
    session: &str,
    message: &str,
    free: bool,
    blocked: bool,
    nobody: bool,
)
    requires
        call_ensures(reads_results, (Some(session), None::<&str>), free),
        call_ensures(reads_results, (Some(session), Some(message)), blocked),
        call_ensures(reads_results, (None::<&str>, None::<&str>), nobody),
    ensures
        free,
        !blocked,
        !nobody,
{
}

/// Activity is reported as work or rest, and without a session nothing is.
pub proof fn law_activity_is_reported(
    reporter: &mut Reporter,
    worker: &mut WorkerState,
    alone: &mut Reporter,
    idle: &mut WorkerState,
    session: &str,
    busy: bool,
)
    requires
        crate::herdr_laws::is_news(
            old(reporter)@,
            old(worker)@,
            session@,
            if busy {
                AgentState::Working
            } else {
                AgentState::Idle
            },
            None,
        ),
        call_ensures(Reporter::sync_activity, (reporter, worker, Some(session), busy), ()),
        call_ensures(Reporter::sync_activity, (alone, idle, None::<&str>, busy), ()),
    ensures
        final(worker)@.pending.len() > 0,
        final(worker)@.pending.last().state == if busy {
            AgentState::Working
        } else {
            AgentState::Idle
        },
        final(worker)@.pending.last().session_id == trimmed(session@),
        final(alone)@ == old(alone)@ && final(idle)@ == old(idle)@,
{
    assert((final(reporter)@, final(worker)@).1 == final(worker)@);
    assert((final(alone)@, final(idle)@).0 == final(alone)@);
    assert((final(alone)@, final(idle)@).1 == final(idle)@);
}

/// A nightly release is named after its commit and accepts the builds of that commit
/// alone; without a commit there is no release.
pub proof fn law_releases_are_named_after_their_commit(
    release: GitHubRelease,
    sha: &str,
    named: Result<GitHubRelease, String>,
    actual: &str,
    valid: Result<(), String>,
)
    requires
        call_ensures(nightly_release_for_commit, (release, sha), named),
        call_ensures(validate_artifact_hash, (actual, sha), valid),
    ensures
        trimmed(sha@).len() == 0 ==> named is Err,
        trimmed(sha@).len() > 0 ==> named is Ok && named->Ok_0.tag_name@ == "nightly-"@ + short_hash(
            sha@,
        ) && named->Ok_0.target_commitish@ == sha@,
        valid is Ok <==> one_commit(actual@, sha@),
{
}

/// A build is an update unless it is of the running commit. Where both are known, the
/// service is asked to compare them, the running one first.
pub proof fn law_updates_are_other_commits(current: &str, release: &GitHubRelease, r: UpdateCheck)
    requires
        call_ensures(nightly_is_update, (current, release), r),
    ensures
        one_commit(current@, trimmed(release.target_commitish@)) <==> r is Current,
        trimmed(current@).len() == 0 ==> r is Update,
        r is Compare ==> r->Compare_0@ == "https://api.github.com/repos/"@ + "7sedam7/jcode"@
            + "/compare/"@ + trimmed(current@) + "..."@ + trimmed(release.target_commitish@),
{
}

/// An update is offered only with a build and its checksums. Without an update nothing
/// is missing.
pub proof fn law_updates_come_with_builds(
    build: bool,
    checksums: bool,
    update: Result<bool, String>,
    none: Result<bool, String>,
)
    requires
        call_ensures(check_manual_update, (true, build, checksums), update),
        call_ensures(check_manual_update, (false, build, checksums), none),
    ensures
        build && checksums <==> update is Ok,
        update is Ok ==> update->Ok_0,
        !build ==> update is Err && update->Err_0@
            == "Fork nightly currently publishes prebuilt Linux x86_64 and aarch64 assets only"@,
        build && !checksums ==> update is Err && update->Err_0@
            == "Fork nightly release is still publishing SHA256SUMS"@,
        none is Ok && !none->Ok_0,
{
}

/// A nightly binary that failed its check is never taken; a release that is no nightly
/// is not checked.
pub proof fn law_failed_binaries_are_refused(
    release: &GitHubRelease,
    report: Option<&str>,
    failed: Result<(), String>,
    unread: Result<(), String>,
)
    requires
        call_ensures(verify_downloaded_binary, (release, false, report), failed),
        call_ensures(verify_downloaded_binary, (release, true, None::<&str>), unread),
    ensures
        begins(release.tag_name@, "nightly-"@) ==> failed is Err && failed->Err_0@
            == "Downloaded fork nightly binary failed its version check"@,
        begins(release.tag_name@, "nightly-"@) ==> unread is Err && unread->Err_0@
            == "Downloaded fork nightly binary returned invalid version JSON"@,
        !begins(release.tag_name@, "nightly-"@) ==> failed is Ok && unread is Ok,
{
}

} // verus!
