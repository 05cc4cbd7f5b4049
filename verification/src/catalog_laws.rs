//! What holds of every catalog: what an entry says is what is read out of it, and
//! what the account offers decides the default model.

use crate::copilot_catalog::{
    billing_after, default_for, endpoint_among, offers, path_of, prices_of, CopilotEndpoint,
    CopilotModelInfo,
};
use crate::copilot_catalog_pricing::CopilotCatalogBilling;
use vstd::prelude::*;

verus! {

/// The protocol of a model is the first of Messages and Responses that it
/// advertises, and Chat Completions where it advertises neither.
pub proof fn law_advertised_protocol_is_used(endpoints: Seq<Seq<char>>)
    ensures
        endpoints.contains("/v1/messages"@) ==> endpoint_among(endpoints)
            == CopilotEndpoint::Messages,
        !endpoints.contains("/v1/messages"@) && endpoints.contains("/responses"@)
            ==> endpoint_among(endpoints) == CopilotEndpoint::Responses,
        !endpoints.contains("/v1/messages"@) && !endpoints.contains("/responses"@)
            ==> endpoint_among(endpoints) == CopilotEndpoint::ChatCompletions,
        path_of(CopilotEndpoint::Messages) == "/v1/messages"@,
        path_of(CopilotEndpoint::Responses) == "/responses"@,
        path_of(CopilotEndpoint::ChatCompletions) == "/chat/completions"@,
{
}

/// Every size that an entry states is read from its own field. Only the context
/// window has a stand-in, the largest prompt. An entry without limits has no size.
pub proof fn law_sizes_are_read_from_their_fields(model: CopilotModelInfo, n: usize)
    ensures
        model.capabilities matches Some(c) ==> c.limits matches Some(l) ==> {
            &&& model.output_cap() == Some(n) <==> l.max_output_tokens == Some(n)
            &&& model.prompt_cap() == Some(n) <==> l.max_prompt_tokens == Some(n)
            &&& l.max_context_window_tokens == Some(n) ==> model.context_window() == Some(n)
            &&& l.max_context_window_tokens is None ==> model.context_window()
                == model.prompt_cap()
        },
        model.capabilities is None || model.capabilities->0.limits is None ==> {
            &&& model.output_cap() is None
            &&& model.prompt_cap() is None
            &&& model.context_window() is None
        },
{
}

/// The policy alone disables a model, by the word "disabled" in whatever case. A
/// model without a policy is not disabled.
pub proof fn law_policy_disables(model: CopilotModelInfo)
    ensures
        model.policy is None ==> !model.disabled(),
        model.policy matches Some(p) && p.state@ == "disabled"@ ==> model.disabled(),
        model.policy matches Some(p) && p.state@ == "DISABLED"@ ==> model.disabled(),
        model.policy matches Some(p) && p.state@.len() != 8 ==> !model.disabled(),
        model.policy matches Some(p) && p.state@ == "unconfigured"@ ==> !model.disabled(),
{
    reveal_strlit("disabled");
    reveal_strlit("DISABLED");
    reveal_strlit("unconfigured");
    assert(crate::text::ascii_lowered("DISABLED"@) =~= "disabled"@);
    assert(crate::text::ascii_lowered("disabled"@) =~= "disabled"@);
}

/// What a model can do is what its entry says: each effort in its place, tools by
/// the flag for tools, images by the flag for images or by an image type.
pub proof fn law_features_are_read_from_their_fields(model: CopilotModelInfo)
    ensures
        model.capabilities matches Some(c) ==> c.supports matches Some(s) ==> {
            &&& model.calls_tools() == s.tool_calls
            &&& model.efforts().len() == s.reasoning_effort@.len()
            &&& forall|i: int|
                0 <= i < s.reasoning_effort@.len() ==> model.efforts()[i] == (
                #[trigger] s.reasoning_effort@[i])@
            &&& s.vision == Some(true) ==> model.takes_images()
            &&& s.vision != Some(true) && c.limits is None ==> !model.takes_images()
        },
        model.capabilities is None ==> {
            &&& model.calls_tools() is None
            &&& model.efforts().len() == 0
            &&& !model.takes_images()
        },
        model.capabilities matches Some(c) && c.supports is None ==> {
            &&& model.calls_tools() is None
            &&& model.efforts().len() == 0
        },
{
}

/// Without the flag for images, a model takes them exactly where one of the media
/// types that it states is an image type.
pub proof fn law_image_types_tell(model: CopilotModelInfo)
    requires
        model.capabilities matches Some(c) && (c.supports matches Some(s) ==> s.vision != Some(
            true,
        )),
    ensures
        model.takes_images() <==> (model.capabilities->0.limits matches Some(l) && l.vision matches Some(
            v,
        ) && exists|i: int|
            0 <= i < v.supported_media_types@.len() && (#[trigger] v.supported_media_types@[i])@.len()
                >= 6 && v.supported_media_types@[i]@.subrange(0, 6) == "image/"@),
{
    reveal_strlit("image/");
    if let Some(l) = model.capabilities->0.limits {
        if let Some(v) = l.vision {
            assert forall|i: int| 0 <= i < v.supported_media_types@.len() implies (
            crate::text::begins((#[trigger] v.supported_media_types@[i])@, "image/"@) <==> (
            v.supported_media_types@[i]@.len() >= 6 && v.supported_media_types@[i]@.subrange(0, 6)
                == "image/"@)) by {}
        }
    }
}

/// A model serves an agent's turn exactly where it is enabled and states its
/// largest output, its largest prompt and whether it calls tools.
pub proof fn law_usable_models_state_their_limits(model: CopilotModelInfo)
    ensures
        model.usable() ==> {
            &&& !model.disabled()
            &&& model.capabilities matches Some(c)
            &&& c.limits matches Some(l)
            &&& l.max_output_tokens is Some
            &&& l.max_prompt_tokens is Some
            &&& c.supports matches Some(s)
            &&& s.tool_calls is Some
        },
        !model.disabled() && (model.capabilities matches Some(c) && (c.limits matches Some(l)
            && l.max_output_tokens is Some && l.max_prompt_tokens is Some) && (
        c.supports matches Some(s) && s.tool_calls is Some)) ==> model.usable(),
{
}

/// The price of a model is that of the default tier, each kind of token by its own
/// price, for the batch that the entry states.
pub proof fn law_prices_are_read_from_their_fields(model: CopilotModelInfo)
    ensures
        model.billing matches Some(b) ==> b.token_prices matches Some(p) ==> p.default matches Some(
            t,
        ) ==> {
            &&& model.prices() matches Some(price)
            &&& price.batch_size == p.batch_size
            &&& price.default.input_price == t.input_price
            &&& price.default.output_price == t.output_price
            &&& price.default.cache_price == t.cache_price
        },
        model.prices() is Some ==> model.billing is Some && model.billing->0.token_prices is Some
            && model.billing->0.token_prices->0.default is Some,
{
}

proof fn lemma_prices_of(models: Seq<CopilotModelInfo>, n: int, i: int)
    requires
        0 <= i < n <= models.len(),
        models[i].prices() is Some,
        forall|j: int|
            i < j < n && (#[trigger] models[j]).id@ == models[i].id@ ==> models[j].prices() is None,
    ensures
        prices_of(models, n).contains_key(models[i].id@),
        prices_of(models, n)[models[i].id@] == models[i].prices()->0,
    decreases n,
{
    if n - 1 > i {
        lemma_prices_of(models, n - 1, i);
        assert(models[n - 1].id@ == models[i].id@ ==> models[n - 1].prices() is None);
    }
}

proof fn lemma_prices_come_from_models(models: Seq<CopilotModelInfo>, n: int, id: Seq<char>)
    requires
        0 <= n <= models.len(),
        prices_of(models, n).contains_key(id),
    ensures
        exists|i: int|
            0 <= i < n && (#[trigger] models[i]).id@ == id && models[i].prices() is Some,
    decreases n,
{
    if n > 0 {
        if models[n - 1].prices() is Some && models[n - 1].id@ == id {
        } else {
            lemma_prices_come_from_models(models, n - 1, id);
            let i = choose|i: int|
                0 <= i < n - 1 && (#[trigger] models[i]).id@ == id && models[i].prices() is Some;
            assert(models[i].id@ == id);
        }
    }
}

/// A catalog that states prices replaces every price that was known: a model has
/// the price of its last priced entry, and one without a priced entry has none.
pub proof fn law_fetched_prices_replace_the_known(
    known: Map<Seq<char>, CopilotCatalogBilling>,
    models: Seq<CopilotModelInfo>,
    i: int,
    id: Seq<char>,
)
    requires
        0 <= i < models.len(),
        models[i].prices() is Some,
        forall|j: int|
            i < j < models.len() && (#[trigger] models[j]).id@ == models[i].id@
                ==> models[j].prices() is None,
    ensures
        billing_after(known, models).contains_key(models[i].id@),
        billing_after(known, models)[models[i].id@] == models[i].prices()->0,
        (forall|j: int|
            0 <= j < models.len() && (#[trigger] models[j]).id@ == id ==> models[j].prices() is None)
            ==> !billing_after(known, models).contains_key(id),
{
    let n = models.len() as int;
    lemma_prices_of(models, n, i);
    assert(prices_of(models, n) != Map::<Seq<char>, CopilotCatalogBilling>::empty()) by {
        assert(!Map::<Seq<char>, CopilotCatalogBilling>::empty().contains_key(models[i].id@));
    }
    if prices_of(models, n).contains_key(id) {
        lemma_prices_come_from_models(models, n, id);
    }
}

/// The models that are preferred as the default, best first: the newest of
/// Anthropic's, then OpenAI's.
pub open spec fn ranking(family: Seq<char>, k: int) -> Seq<char> {
    if k == 0 {
        family + "-opus-4.6"@
    } else if k == 1 {
        family + "-sonnet-4.6"@
    } else if k == 2 {
        family + "-opus-4.5"@
    } else if k == 3 {
        family + "-sonnet-4.5"@
    } else if k == 4 {
        family + "-sonnet-4"@
    } else {
        "gpt-5.5"@
    }
}

/// The default model is the best ranked one that the account offers.
pub proof fn law_best_offered_model_is_the_default(
    models: Seq<CopilotModelInfo>,
    family: Seq<char>,
    k: int,
)
    requires
        0 <= k < 6,
        offers(models, ranking(family, k)),
        forall|j: int| 0 <= j < k ==> !offers(models, #[trigger] ranking(family, j)),
    ensures
        default_for(models, family) == ranking(family, k),
{
    lemma_best(models, family, k, 0);
}

proof fn lemma_best(models: Seq<CopilotModelInfo>, family: Seq<char>, k: int, n: int)
    requires
        0 <= n <= k < 6,
        offers(models, ranking(family, k)),
        forall|j: int| 0 <= j < k ==> !offers(models, #[trigger] ranking(family, j)),
    ensures
        crate::copilot_catalog::best_preferred(models, family, n) == Some(ranking(family, k)),
    decreases k - n,
{
    assert(crate::copilot_catalog::preferred_models(family)[n] == ranking(family, n));
    if n < k {
        lemma_best(models, family, k, n + 1);
    }
}

proof fn lemma_no_best(models: Seq<CopilotModelInfo>, family: Seq<char>, n: int)
    requires
        0 <= n <= 6,
        forall|j: int| 0 <= j < 6 ==> !offers(models, #[trigger] ranking(family, j)),
    ensures
        crate::copilot_catalog::best_preferred(models, family, n) is None,
    decreases 6 - n,
{
    if n < 6 {
        assert(crate::copilot_catalog::preferred_models(family)[n] == ranking(family, n));
        lemma_no_best(models, family, n + 1);
    }
}

proof fn lemma_first(models: Seq<CopilotModelInfo>, picked: bool, i: int, n: int)
    requires
        0 <= n <= i < models.len(),
        !models[i].disabled() && (picked ==> models[i].model_picker_enabled),
        forall|j: int|
            0 <= j < i ==> (#[trigger] models[j]).disabled() || (picked
                && !models[j].model_picker_enabled),
    ensures
        crate::copilot_catalog::first_enabled(models, picked, n) == Some(i),
    decreases i - n,
{
    if n < i {
        assert(models[n].disabled() || (picked && !models[n].model_picker_enabled));
        lemma_first(models, picked, i, n + 1);
    }
}

proof fn lemma_none_first(models: Seq<CopilotModelInfo>, picked: bool, n: int)
    requires
        0 <= n <= models.len(),
        forall|j: int|
            0 <= j < models.len() ==> (#[trigger] models[j]).disabled() || (picked
                && !models[j].model_picker_enabled),
    ensures
        crate::copilot_catalog::first_enabled(models, picked, n) is None,
    decreases models.len() - n,
{
    if n < models.len() {
        assert(models[n].disabled() || (picked && !models[n].model_picker_enabled));
        lemma_none_first(models, picked, n + 1);
    }
}

/// Where none of the ranked models is offered, the default is the first enabled
/// model of the picker, then the first enabled model, and without any the fallback.
pub proof fn law_unranked_default_is_the_first_enabled(
    models: Seq<CopilotModelInfo>,
    family: Seq<char>,
    i: int,
)
    requires
        forall|j: int| 0 <= j < 6 ==> !offers(models, #[trigger] ranking(family, j)),
    ensures
        0 <= i < models.len() && !models[i].disabled() && models[i].model_picker_enabled && (
        forall|j: int|
            0 <= j < i ==> (#[trigger] models[j]).disabled() || !models[j].model_picker_enabled)
            ==> default_for(models, family) == models[i].id@,
        0 <= i < models.len() && !models[i].disabled() && (forall|j: int|
            0 <= j < i ==> (#[trigger] models[j]).disabled()) && (forall|j: int|
            0 <= j < models.len() ==> (#[trigger] models[j]).disabled()
                || !models[j].model_picker_enabled) ==> default_for(models, family)
            == models[i].id@,
        (forall|j: int| 0 <= j < models.len() ==> (#[trigger] models[j]).disabled())
            ==> default_for(models, family) == family + "-sonnet-4"@,
{
    lemma_no_best(models, family, 0);
    if 0 <= i < models.len() && !models[i].disabled() {
        if models[i].model_picker_enabled && (forall|j: int|
            0 <= j < i ==> (#[trigger] models[j]).disabled() || !models[j].model_picker_enabled) {
            lemma_first(models, true, i, 0);
        }
        if (forall|j: int| 0 <= j < i ==> (#[trigger] models[j]).disabled()) && (forall|j: int|
            0 <= j < models.len() ==> (#[trigger] models[j]).disabled()
                || !models[j].model_picker_enabled) {
            lemma_none_first(models, true, 0);
            lemma_first(models, false, i, 0);
        }
    }
    if forall|j: int| 0 <= j < models.len() ==> (#[trigger] models[j]).disabled() {
        lemma_none_first(models, true, 0);
        lemma_none_first(models, false, 0);
    }
}

/// A model is offered exactly where an enabled entry has its id.
pub proof fn law_disabled_models_are_not_offered(models: Seq<CopilotModelInfo>, i: int)
    requires
        0 <= i < models.len(),
    ensures
        !models[i].disabled() ==> offers(models, models[i].id@),
        (forall|j: int|
            0 <= j < models.len() && (#[trigger] models[j]).id@ == models[i].id@
                ==> models[j].disabled()) ==> !offers(models, models[i].id@),
{
}

} // verus!
