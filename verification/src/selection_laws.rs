//! What holds of every choice of a provider: which one is there, which one owns a
//! model, and what a spawned agent runs on.

use crate::multi_provider::{
    catalog_owns, names_model, slot_available, ActiveProvider, ProviderSlots,
};
use crate::session_provider::{living, provider_in};
use crate::spawn_provider::{
    choice_of, family_key, is_listed, live_route, pinned_route, selection_for, Choice,
    SelectionView,
};
use crate::text::{begins, same_but_case, trimmed};
use vstd::prelude::*;

verus! {

/// Each provider is there by its own slot; Anthropic's is there by either of two.
pub proof fn law_slots_are_their_own(slots: ProviderSlots)
    ensures
        slot_available(slots, ActiveProvider::Claude) <==> slots.anthropic || slots.claude,
        slot_available(slots, ActiveProvider::OpenAI) <==> slots.openai,
        slot_available(slots, ActiveProvider::Copilot) <==> slots.copilot,
        slot_available(slots, ActiveProvider::Antigravity) <==> slots.antigravity,
        slot_available(slots, ActiveProvider::Gemini) <==> slots.gemini,
        slot_available(slots, ActiveProvider::Cursor) <==> slots.cursor,
        slot_available(slots, ActiveProvider::Bedrock) <==> slots.bedrock,
        slot_available(slots, ActiveProvider::OpenRouter) <==> slots.openrouter_execution,
{
}

/// A catalog owns the models that it offers or shows, and no other: a model that is
/// in neither list is not its own, and neither is a blank name.
pub proof fn law_catalog_owns_its_models(
    switching: Seq<Seq<char>>,
    display: Seq<Seq<char>>,
    model: Seq<char>,
    i: int,
)
    ensures
        0 <= i < display.len() && trimmed(model).len() > 0 && same_but_case(
            trimmed(display[i]),
            trimmed(model),
        ) ==> catalog_owns(switching, display, model),
        0 <= i < switching.len() && trimmed(model).len() > 0 && same_but_case(
            trimmed(switching[i]),
            trimmed(model),
        ) ==> catalog_owns(switching, display, model),
        (forall|j: int|
            0 <= j < switching.len() ==> !same_but_case(
                trimmed(#[trigger] switching[j]),
                trimmed(model),
            )) && (forall|j: int|
            0 <= j < display.len() ==> !same_but_case(
                trimmed(#[trigger] display[j]),
                trimmed(model),
            )) ==> !catalog_owns(switching, display, model),
        trimmed(model).len() == 0 ==> !catalog_owns(switching, display, model),
{
    if 0 <= i < display.len() && same_but_case(trimmed(display[i]), trimmed(model)) {
        assert(names_model(display, model));
    }
    if 0 <= i < switching.len() && same_but_case(trimmed(switching[i]), trimmed(model)) {
        assert(names_model(switching, model));
    }
}

/// What is dead is forgotten, and what lives stays as it is.
pub proof fn law_the_living_stay(m: Map<Seq<char>, u64>, session: Seq<char>, alive: Seq<u64>)
    ensures
        living(m, alive).contains_key(session) <==> m.contains_key(session) && alive.contains(
            m[session],
        ),
        living(m, alive).contains_key(session) ==> living(m, alive)[session] == m[session],
        provider_in(living(m, alive), session, alive) == provider_in(m, session, alive),
        m.contains_key(session) && alive.contains(m[session]) ==> provider_in(m, session, alive)
            == Some(m[session]),
        !m.contains_key(session) || !alive.contains(m[session]) ==> provider_in(m, session, alive)
            is None,
{
}

/// What is asked for is taken as it is; where nothing is asked for, what is
/// configured; and without either the coordinator's choice.
pub proof fn law_requests_come_first(requested: Seq<char>, configured: Option<Seq<char>>)
    ensures
        trimmed(requested).len() > 0 && !same_but_case(trimmed(requested), "inherit"@)
            && !same_but_case(trimmed(requested), "coordinator"@) ==> choice_of(
            Some(requested),
            configured,
        ) == Choice::Model(trimmed(requested)),
        trimmed(requested).len() > 0 && (same_but_case(trimmed(requested), "inherit"@)
            || same_but_case(trimmed(requested), "coordinator"@)) ==> choice_of(
            Some(requested),
            configured,
        ) is Inherit,
        trimmed(requested).len() > 0 ==> choice_of(None, Some(requested)) == choice_of(
            Some(requested),
            configured,
        ),
        trimmed(requested).len() == 0 ==> choice_of(None, Some(requested)) is Inherit,
        choice_of(None, None) is Inherit,
{
}

/// A model's name can pin its route by what stands before its first colon: the rest
/// is the model, and the route goes by the pin.
pub proof fn law_pins_name_the_route(name: Seq<char>, family: Seq<char>)
    ensures
        pinned_route("openai-api:"@ + name, family) == Some((name, "openai-api-key"@)),
        pinned_route("openai-oauth:"@ + name, family) == Some((name, "openai-oauth"@)),
        ({
            let pinned = family + "-api:"@ + name;
            !begins(pinned, "openai-api:"@) && !begins(pinned, "openai-oauth:"@) ==> pinned_route(
                pinned,
                family,
            ) == Some((name, "anthropic-api-key"@))
        }),
        ({
            let pinned = family + "-oauth:"@ + name;
            !begins(pinned, "openai-api:"@) && !begins(pinned, "openai-oauth:"@) ==> pinned_route(
                pinned,
                family,
            ) == Some((name, family + "-oauth"@))
        }),
{
    reveal_strlit("openai-api:");
    reveal_strlit("openai-oauth:");
    reveal_strlit("-api:");
    reveal_strlit("-oauth:");
    lemma_pin("openai-api:"@, name);
    lemma_pin("openai-oauth:"@, name);
    let by_login = "openai-oauth:"@ + name;
    if begins(by_login, "openai-api:"@) {
        assert(by_login.subrange(0, 11)[7] == by_login[7]);
    }
    lemma_pin(family + "-api:"@, name);
    lemma_pin(family + "-oauth:"@, name);
    let oauth = family + "-oauth:"@ + name;
    let key = family + "-api:"@;
    if begins(oauth, key) {
        let at = family.len() + 1;
        assert(oauth.subrange(0, key.len() as int)[at as int] == oauth[at as int]);
        assert(key[at as int] == 'a');
        assert(oauth[at as int] == 'o');
    }
}

proof fn lemma_pin(pin: Seq<char>, name: Seq<char>)
    ensures
        begins(pin + name, pin),
        (pin + name).skip(pin.len() as int) == name,
{
    assert((pin + name).subrange(0, pin.len() as int) =~= pin);
    assert((pin + name).skip(pin.len() as int) =~= name);
}

/// Only a pin makes a route: a name that begins with none of them has none.
pub proof fn law_plain_names_have_no_pin(model: Seq<char>, family: Seq<char>)
    requires
        !begins(model, "openai-api:"@),
        !begins(model, "openai-oauth:"@),
        !begins(model, family + "-api:"@),
        !begins(model, family + "-oauth:"@),
    ensures
        pinned_route(model, family) is None,
{
}

/// The provider of a bare model goes by its name: a path is OpenRouter's, and the
/// makers' names are theirs.
pub proof fn law_names_tell_the_provider(model: Seq<char>, family: Seq<char>)
    ensures
        model.contains('/') ==> family_key(model, family) == Some("openrouter"@),
        !model.contains('/') && begins(model, "gpt-"@) ==> family_key(model, family) == Some(
            "openai"@,
        ),
        !model.contains('/') && !begins(model, "gpt-"@) && begins(model, family) ==> family_key(
            model,
            family,
        ) == Some(family),
        !model.contains('/') && !begins(model, "gpt-"@) && !begins(model, family) ==> family_key(
            model,
            family,
        ) is None,
{
}

/// A spawned agent runs on the coordinator's own selection where it inherits, or
/// asks for the coordinator's model. A pinned model runs on its pin. Whatever else is
/// asked for is the model it runs on.
pub proof fn law_spawned_agents_run_as_asked(
    model: Seq<char>,
    coordinator: SelectionView,
    models: Seq<String>,
    derived_key: Option<Seq<char>>,
    family: Seq<char>,
)
    ensures
        selection_for(Choice::Inherit, coordinator, models, derived_key, family) == coordinator,
        pinned_route(model, family) is None && coordinator.model == Some(model) ==> selection_for(
            Choice::Model(model),
            coordinator,
            models,
            derived_key,
            family,
        ) == coordinator,
        pinned_route(model, family) matches Some((bare, route)) ==> {
            let s = selection_for(Choice::Model(model), coordinator, models, derived_key, family);
            s.model == Some(bare) && s.provider_key == Some(route) && s.route_api_method == Some(
                route,
            )
        },
        pinned_route(model, family) is None ==> selection_for(
            Choice::Model(model),
            coordinator,
            models,
            derived_key,
            family,
        ).model == Some(model),
{
}

/// A model of the live catalog runs on the coordinator's provider, by the
/// coordinator's route, or by Copilot's where the provider is Copilot and names none.
pub proof fn law_live_models_stay_with_the_coordinator(
    models: Seq<String>,
    model: Seq<char>,
    key: Seq<char>,
    derived_key: Option<Seq<char>>,
    route: Option<Seq<char>>,
    i: int,
)
    requires
        0 <= i < models.len(),
        same_but_case(models[i]@, trimmed(model)),
    ensures
        live_route(models, model, Some(key), derived_key, route) matches Some(live) && live.0 == key
            && (route is Some ==> live.1 == route) && (route is None && key == "copilot"@ ==> live.1
            == Some("copilot"@)) && (route is None && key != "copilot"@ ==> live.1 is None),
        live_route(models, model, None, Some(key), route) == live_route(
            models,
            model,
            Some(key),
            None,
            route,
        ),
        live_route(models, model, None, None, route) is None,
{
    assert(is_listed(models, model));
}

} // verus!
