//! Which model and route a spawned worker gets.

use crate::copilot_enterprise::str_option;
use crate::message::text_option;
use crate::text::{
    begins, concat, eq_ignore_ascii_case, has_char, owned, same, same_but_case, starts_with, strip_prefix,
    trim, trimmed,
};
use vstd::prelude::*;

verus! {

/// A live provider, as far as a spawn reads it.
pub struct LiveProvider {
    /// The session key that follows from its name.
    pub session_key: Option<String>,
    /// The models that it can switch to.
    pub models: Vec<String>,
}

/// What the session that spawns uses itself.
#[derive(Debug)]
pub struct CoordinatorSpawnIdentity {
    pub model: Option<String>,
    pub provider_key: Option<String>,
    pub route_api_method: Option<String>,
    pub is_canary: bool,
}

/// What a spawned worker uses.
#[derive(Debug, PartialEq)]
pub struct SpawnSelection {
    pub model: Option<String>,
    pub provider_key: Option<String>,
    pub route_api_method: Option<String>,
}

/// The model of [`SpawnSelection`].
pub struct SelectionView {
    pub model: Option<Seq<char>>,
    pub provider_key: Option<Seq<char>>,
    pub route_api_method: Option<Seq<char>>,
}

impl View for SpawnSelection {
    type V = SelectionView;

    open spec fn view(&self) -> SelectionView {
        SelectionView {
            model: text_option(self.model),
            provider_key: text_option(self.provider_key),
            route_api_method: text_option(self.route_api_method),
        }
    }
}

impl View for CoordinatorSpawnIdentity {
    type V = SelectionView;

    open spec fn view(&self) -> SelectionView {
        SelectionView {
            model: text_option(self.model),
            provider_key: text_option(self.provider_key),
            route_api_method: text_option(self.route_api_method),
        }
    }
}

/// Whether a provider lists a model, whatever the case of its letters.
pub open spec fn is_listed(models: Seq<String>, model: Seq<char>) -> bool {
    exists|i: int|
        0 <= i < models.len() && same_but_case((#[trigger] models[i])@, trimmed(model))
}

/// The route of a live provider for a model that it lists: the key that is given
/// or else derived, and the route that is given or else, for Copilot, its own.
pub open spec fn live_route(
    models: Seq<String>,
    model: Seq<char>,
    provider_key: Option<Seq<char>>,
    derived_key: Option<Seq<char>>,
    route_api_method: Option<Seq<char>>,
) -> Option<(Seq<char>, Option<Seq<char>>)> {
    let key = if provider_key is Some {
        provider_key
    } else {
        derived_key
    };
    if !is_listed(models, model) {
        None
    } else {
        match key {
            Some(key) => Some(
                (
                    key,
                    if route_api_method is Some {
                        route_api_method
                    } else if key == "copilot"@ {
                        Some("copilot"@)
                    } else {
                        None
                    },
                ),
            ),
            None => None,
        }
    }
}

fn lists_model(models: &Vec<String>, model: &str) -> (r: bool)
    ensures
        r == is_listed(models@, model@),
{
    let name = trim(model);
    let mut i: usize = 0;
    while i < models.len()
        invariant
            i <= models@.len(),
            name@ == trimmed(model@),
            forall|k: int|
                0 <= k < i ==> !same_but_case((#[trigger] models@[k])@, trimmed(model@)),
        decreases models@.len() - i,
    {
        if eq_ignore_ascii_case(models[i].as_str(), name) {
            return true;
        }
        i = i + 1;
    }
    false
}

/// The model of a route.
pub open spec fn route_view(r: Option<(String, Option<String>)>) -> Option<
    (Seq<char>, Option<Seq<char>>),
> {
    match r {
        Some((key, route)) => Some((key@, text_option(route))),
        None => None,
    }
}

/// The route of a live provider for a bare model in its catalog.
pub fn route_for_model(
    provider: &LiveProvider,
    model: &str,
    provider_key: Option<&str>,
    route_api_method: Option<&str>,
) -> (r: Option<(String, Option<String>)>)
    ensures
        route_view(r) == live_route(
            provider.models@,
            model@,
            str_option(provider_key),
            text_option(provider.session_key),
            str_option(route_api_method),
        ),
{
    if !lists_model(&provider.models, model) {
        return None;
    }
    let key = match provider_key {
        Some(key) => key,
        None => match &provider.session_key {
            Some(key) => key.as_str(),
            None => {
                return None;
            },
        },
    };
    let route = match route_api_method {
        Some(route) => Some(owned(route)),
        None => {
            if same(key, "copilot") {
                Some(owned("copilot"))
            } else {
                None
            }
        },
    };
    Some((owned(key), route))
}

/// What a choice of model is, blank ones and the words for "as the coordinator"
/// set aside.
pub enum Choice {
    /// The coordinator's model and route.
    Inherit,
    /// A model.
    Model(Seq<char>),
}

/// Whether a choice means the coordinator's model.
pub open spec fn means_inherit(choice: Seq<char>) -> bool {
    same_but_case(choice, "inherit"@) || same_but_case(choice, "coordinator"@)
}

/// What a request and the configuration choose together. A request wins unless it
/// is blank.
pub open spec fn choice_of(requested: Option<Seq<char>>, configured: Option<Seq<char>>) -> Choice {
    let wanted = match requested {
        Some(text) => if trimmed(text).len() > 0 {
            trimmed(text)
        } else {
            match configured {
                Some(text) => trimmed(text),
                None => seq![],
            }
        },
        None => match configured {
            Some(text) => trimmed(text),
            None => seq![],
        },
    };
    if wanted.len() == 0 || means_inherit(wanted) {
        Choice::Inherit
    } else {
        Choice::Model(wanted)
    }
}

/// The model and route that a prefix for a way to authenticate pins. `family` is
/// what the ids of Anthropic's models begin with.
pub open spec fn pinned_route(model: Seq<char>, family: Seq<char>) -> Option<
    (Seq<char>, Seq<char>),
> {
    if begins(model, "openai-api:"@) {
        Some((model.skip("openai-api:"@.len() as int), "openai-api-key"@))
    } else if begins(model, "openai-oauth:"@) {
        Some((model.skip("openai-oauth:"@.len() as int), "openai-oauth"@))
    } else if begins(model, family + "-api:"@) {
        Some((model.skip((family + "-api:"@).len() as int), "anthropic-api-key"@))
    } else if begins(model, family + "-oauth:"@) {
        Some((model.skip((family + "-oauth:"@).len() as int), family + "-oauth"@))
    } else {
        None
    }
}

/// The provider that a model's name points at, where no catalog decides.
pub open spec fn family_key(model: Seq<char>, family: Seq<char>) -> Option<Seq<char>> {
    if model.contains('/') {
        Some("openrouter"@)
    } else if begins(model, "gpt-"@) {
        Some("openai"@)
    } else if begins(model, family) {
        Some(family)
    } else {
        None
    }
}

/// What a spawned worker uses: the coordinator's model and route where it
/// inherits them or asks for that very model; else a route that the choice pins;
/// else the route of the coordinator's live provider where its catalog lists the
/// model; else what the model's name points at.
pub open spec fn selection_for(
    choice: Choice,
    coordinator: SelectionView,
    models: Seq<String>,
    derived_key: Option<Seq<char>>,
    family: Seq<char>,
) -> SelectionView {
    match choice {
        Choice::Inherit => coordinator,
        Choice::Model(model) => match pinned_route(model, family) {
            Some((bare, route)) => SelectionView {
                model: Some(bare),
                provider_key: Some(route),
                route_api_method: Some(route),
            },
            None => if coordinator.model == Some(model) {
                coordinator
            } else {
                match live_route(
                    models,
                    model,
                    coordinator.provider_key,
                    derived_key,
                    coordinator.route_api_method,
                ) {
                    Some((key, route)) => SelectionView {
                        model: Some(model),
                        provider_key: Some(key),
                        route_api_method: route,
                    },
                    None => SelectionView {
                        model: Some(model),
                        provider_key: family_key(model, family),
                        route_api_method: None,
                    },
                }
            },
        },
    }
}

fn copy_text(t: &Option<String>) -> (r: Option<String>)
    ensures
        text_option(r) == text_option(*t),
{
    match t {
        Some(t) => Some(t.clone()),
        None => None,
    }
}

fn inherit(coordinator: &CoordinatorSpawnIdentity) -> (r: SpawnSelection)
    ensures
        r@ == coordinator@,
{
    SpawnSelection {
        model: copy_text(&coordinator.model),
        provider_key: copy_text(&coordinator.provider_key),
        route_api_method: copy_text(&coordinator.route_api_method),
    }
}

fn pin(model: &str, family: &str) -> (r: Option<(String, String)>)
    ensures
        (match r {
            Some((bare, route)) => pinned_route(model@, family@) == Some((bare@, route@)),
            None => pinned_route(model@, family@) is None,
        }),
{
    match strip_prefix(model, "openai-api:") {
        Some(bare) => {
            return Some((owned(bare), owned("openai-api-key")));
        },
        None => {},
    }
    match strip_prefix(model, "openai-oauth:") {
        Some(bare) => {
            return Some((owned(bare), owned("openai-oauth")));
        },
        None => {},
    }
    match strip_prefix(model, concat(family, "-api:").as_str()) {
        Some(bare) => {
            return Some((owned(bare), owned("anthropic-api-key")));
        },
        None => {},
    }
    match strip_prefix(model, concat(family, "-oauth:").as_str()) {
        Some(bare) => Some((owned(bare), concat(family, "-oauth"))),
        None => None,
    }
}

fn guess_family(model: &str, family: &str) -> (r: Option<String>)
    ensures
        text_option(r) == family_key(model@, family@),
{
    if has_char(model, '/') {
        Some(owned("openrouter"))
    } else if starts_with(model, "gpt-") {
        Some(owned("openai"))
    } else if starts_with(model, family) {
        Some(owned(family))
    } else {
        None
    }
}

fn option_str(t: &Option<String>) -> (r: Option<&str>)
    ensures
        str_option(r) == text_option(*t),
{
    match t {
        Some(t) => Some(t.as_str()),
        None => None,
    }
}

/// What a spawned worker uses, given a request and the configuration.
pub fn resolve_swarm_spawn_selection(
    requested: Option<String>,
    configured: Option<String>,
    coordinator: &CoordinatorSpawnIdentity,
    provider: &LiveProvider,
    family: &str,
) -> (r: SpawnSelection)
    ensures
        r@ == selection_for(
            choice_of(text_option(requested), text_option(configured)),
            coordinator@,
            provider.models@,
            text_option(provider.session_key),
            family@,
        ),
{
    let asked = match &requested {
        Some(text) => trim(text.as_str()),
        None => "",
    };
    let set = match &configured {
        Some(text) => trim(text.as_str()),
        None => "",
    };
    proof {
        reveal_strlit("");
        assert(""@ =~= seq![]);
    }
    let wanted = if asked.is_empty() {
        set
    } else {
        asked
    };
    if wanted.is_empty() || eq_ignore_ascii_case(wanted, "inherit") || eq_ignore_ascii_case(
        wanted,
        "coordinator",
    ) {
        return inherit(coordinator);
    }
    match pin(wanted, family) {
        Some((bare, route)) => {
            let key = route.clone();
            return SpawnSelection {
                model: Some(bare),
                provider_key: Some(key),
                route_api_method: Some(route),
            };
        },
        None => {},
    }
    let as_coordinator = match &coordinator.model {
        Some(model) => same(model.as_str(), wanted),
        None => false,
    };
    if as_coordinator {
        return inherit(coordinator);
    }
    match route_for_model(
        provider,
        wanted,
        option_str(&coordinator.provider_key),
        option_str(&coordinator.route_api_method),
    ) {
        Some((key, route)) => SpawnSelection {
            model: Some(owned(wanted)),
            provider_key: Some(key),
            route_api_method: route,
        },
        None => SpawnSelection {
            model: Some(owned(wanted)),
            provider_key: guess_family(wanted, family),
            route_api_method: None,
        },
    }
}

/// A live catalog that lists a bare model owns it before the model's name is
/// looked at: a worker of a Copilot session stays on Copilot.
pub proof fn law_live_catalog_owns_bare_models(
    model: Seq<char>,
    coordinator: SelectionView,
    models: Seq<String>,
    derived_key: Option<Seq<char>>,
    family: Seq<char>,
)
    requires
        pinned_route(model, family) is None,
        coordinator.model != Some(model),
        coordinator.provider_key == Some("copilot"@) || (coordinator.provider_key is None
            && derived_key == Some("copilot"@)),
        coordinator.route_api_method is None || coordinator.route_api_method == Some("copilot"@),
        is_listed(models, model),
    ensures
        selection_for(Choice::Model(model), coordinator, models, derived_key, family) == (SelectionView {
            model: Some(model),
            provider_key: Some("copilot"@),
            route_api_method: Some("copilot"@),
        }),
{
}

/// A catalog that does not list a model cannot capture it, and a model of
/// another family does not inherit the coordinator's route.
pub proof fn law_unlisted_models_are_not_captured(
    model: Seq<char>,
    coordinator: SelectionView,
    models: Seq<String>,
    derived_key: Option<Seq<char>>,
    family: Seq<char>,
)
    requires
        pinned_route(model, family) is None,
        coordinator.model != Some(model),
        !is_listed(models, model),
    ensures
        selection_for(Choice::Model(model), coordinator, models, derived_key, family).provider_key == family_key(
            model,
            family,
        ),
        selection_for(Choice::Model(model), coordinator, models, derived_key, family).route_api_method is None,
{
}

/// A blank request counts as no request.
pub proof fn law_blank_request_counts_as_none(
    requested: Seq<char>,
    configured: Option<Seq<char>>,
)
    requires
        trimmed(requested).len() == 0,
    ensures
        choice_of(Some(requested), configured) == choice_of(None, configured),
{
}

} // verus!
