//! What holds of every session: which turns are the user's, which model and effort
//! a choice leaves, and what is said of the catalog.

use crate::catalog::SpecView;
use crate::copilot_catalog::CopilotAccountType;
use crate::json::{field, JsonView};
use crate::message::MessageView;
use crate::provider::{
    carries_image, catalog_detail, counts_as_user, effort_choice, effort_place, effort_to_send,
    efforts_in, fresh_session, is_image, is_reminder, is_text, known_effort, known_efforts,
    model_choice, named_efforts, nothing_shared, own_model, premium_setting, session_window,
    turn_view, user_asked, with_default, CatalogSource, ProviderView,
};
use crate::text::{begins, joined, occurs, same_but_case, trimmed, white_space};
use crate::text_laws::{law_parts_are_found, law_trimmed_text_stays, law_trimming_takes_outer_space};
use vstd::prelude::*;

verus! {

proof fn lemma_asked_before(messages: Seq<MessageView>, m: MessageView, n: int)
    requires
        n <= messages.len(),
    ensures
        user_asked(messages.push(m), n) == user_asked(messages, n),
    decreases n,
{
    if n > 0 {
        lemma_asked_before(messages, m, n - 1);
        assert(messages.push(m)[n - 1] == messages[n - 1]);
    }
}

/// Who asked is told by the last message. After the assistant spoke, or before
/// anybody did, it is the user. A message with a tool's result goes on with a turn.
/// A message of nothing but texts with a reminder among them says nothing: the
/// messages before it tell. Every other message of the user asks.
pub proof fn law_last_message_tells_who_asked(messages: Seq<MessageView>, m: MessageView, i: int)
    ensures
        ({
            let after = user_asked(messages.push(m), (messages.len() + 1) as int);
            let before = user_asked(messages, messages.len() as int);
            &&& user_asked(Seq::<MessageView>::empty(), 0)
            &&& m.role is Assistant ==> after
            &&& m.role is User && 0 <= i < m.content.len() && m.content[i] is ToolResult ==> !after
            &&& m.role is User && m.content.len() == 0 ==> after
            &&& m.role is User && (forall|j: int|
                0 <= j < m.content.len() ==> !(#[trigger] m.content[j] is ToolResult)) && 0 <= i
                < m.content.len() && !(m.content[i] is Text) ==> after
            &&& m.role is User && m.content.len() > 0 && (forall|j: int|
                0 <= j < m.content.len() ==> (#[trigger] m.content[j]) is Text && !occurs(
                    m.content[j]->Text_text,
                    "<system-reminder>"@,
                )) ==> after
            &&& m.role is User && (forall|j: int|
                0 <= j < m.content.len() ==> (#[trigger] m.content[j]) is Text) && 0 <= i
                < m.content.len() && occurs(m.content[i]->Text_text, "<system-reminder>"@)
                ==> after == before
        }),
{
    lemma_asked_before(messages, m, messages.len() as int);
    assert(messages.push(m)[messages.len() as int] == m);
    if 0 <= i < m.content.len() {
        if m.content[i] is Text && occurs(m.content[i]->Text_text, "<system-reminder>"@) {
            assert(is_reminder(m.content[i]));
        }
        if !(m.content[i] is Text) {
            assert(!is_text(m.content[i]));
        }
    }
}

/// A turn of the user's counts as one by how the session spends premium requests:
/// each, the first, or none. A turn that nobody asked for never counts.
pub proof fn law_turns_count_by_the_mode(p: ProviderView)
    ensures
        !counts_as_user(p, false),
        p.premium_mode is Normal ==> counts_as_user(p, true),
        p.premium_mode is OnePerSession ==> (counts_as_user(p, true) <==> p.user_turns == 0),
        p.premium_mode is Zero ==> !counts_as_user(p, true),
{
}

/// The setting names the mode: "0" for none, "1" for one, everything else for
/// all.
pub proof fn law_setting_names_the_mode(setting: Seq<char>)
    ensures
        premium_setting(Some("0"@)) is Zero,
        premium_setting(Some("1"@)) is OnePerSession,
        premium_setting(None) is Normal,
        setting != "0"@ && setting != "1"@ ==> premium_setting(Some(setting)) is Normal,
{
    reveal_strlit("0");
    reveal_strlit("1");
    assert("0"@[0] != "1"@[0]);
}

/// A conversation carries an image exactly where a block is one, or a tool's output
/// holds one inline.
pub proof fn law_images_are_noticed(messages: Seq<MessageView>, i: int, j: int)
    ensures
        0 <= i < messages.len() && 0 <= j < messages[i].content.len()
            && messages[i].content[j] is Image ==> carries_image(messages),
        0 <= i < messages.len() && 0 <= j < messages[i].content.len()
            && messages[i].content[j] is ToolResult && occurs(
            messages[i].content[j]->ToolResult_content,
            "data:image/"@,
        ) ==> carries_image(messages),
        (forall|a: int, b: int|
            0 <= a < messages.len() && 0 <= b < messages[a].content.len() ==> !((
            #[trigger] messages[a].content[b]) is Image) && !(messages[a].content[b] is ToolResult
                && occurs(messages[a].content[b]->ToolResult_content, "data:image/"@)))
            ==> !carries_image(messages),
{
    if 0 <= i < messages.len() && 0 <= j < messages[i].content.len() {
        let block = messages[i].content[j];
        assert(block is Image ==> is_image(block));
    }
}

/// A name that is fit to be a model's is taken as it is, with or without the
/// provider's name and white space around it.
pub proof fn law_fit_names_are_taken(name: Seq<char>)
    requires
        name.len() > 0,
        !white_space(name[0]) && !white_space(name.last()),
        !occurs(name, "[1m]"@),
    ensures
        !begins(name, "copilot:"@) ==> model_choice(name) == Ok::<Seq<char>, Seq<char>>(name),
        model_choice("copilot:"@ + name) == Ok::<Seq<char>, Seq<char>>(name),
{
    reveal_strlit("copilot:");
    law_trimmed_text_stays(name);
    let long = "copilot:"@ + name;
    assert(long[0] == 'c');
    assert(long.last() == name.last());
    law_trimmed_text_stays(long);
    law_parts_are_found("copilot:"@, name, seq![]);
    assert(long.skip("copilot:"@.len() as int) =~= name);
}

/// A model that is chosen has a name, without white space around it, and is none of
/// the long windows. A refusal says which of the two it is for.
pub proof fn law_chosen_models_have_fit_names(model: Seq<char>)
    ensures
        (match model_choice(model) {
            Ok(name) => {
                &&& name.len() > 0
                &&& !white_space(name[0]) && !white_space(name.last())
                &&& !occurs(name, "[1m]"@)
                &&& occurs(model, name)
            },
            Err(message) => {
                ||| message == "Copilot model cannot be empty"@ && own_model(model).len() == 0
                ||| message
                    == "1M context window models are not supported via Copilot. Use the Anthropic API directly."@
                    && occurs(own_model(model), "[1m]"@)
            },
        }),
        trimmed(model).len() == 0 ==> model_choice(model) == Err::<Seq<char>, Seq<char>>(
            "Copilot model cannot be empty"@,
        ),
        trimmed(model) == "copilot:"@ ==> model_choice(model) == Err::<Seq<char>, Seq<char>>(
            "Copilot model cannot be empty"@,
        ),
{
    reveal_strlit("copilot:");
    law_trimming_takes_outer_space(model);
    let whole = trimmed(model);
    let (i, j) = choose|i: int, j: int|
        0 <= i <= j <= model.len() && whole == #[trigger] model.subrange(i, j);
    let rest = whole.skip("copilot:"@.len() as int);
    law_trimming_takes_outer_space(rest);
    if begins(whole, "copilot:"@) {
        let (a, b) = choose|a: int, b: int|
            0 <= a <= b <= rest.len() && trimmed(rest) == #[trigger] rest.subrange(a, b);
        let at = i + 8 + a;
        assert(model.subrange(at, at + (b - a)) =~= trimmed(rest));
        assert(crate::text::occurs_at(model, trimmed(rest), at));
    } else {
        assert(crate::text::occurs_at(model, whole, i));
    }
    if whole == "copilot:"@ {
        assert(whole.subrange(0, 8) =~= whole);
        assert(rest =~= seq![]);
    }
    if whole.len() == 0 {
        assert(!begins(whole, "copilot:"@));
    }
}

/// A catalog's default is taken where no model was picked, and changes nothing but
/// the model.
pub proof fn law_default_only_fills_in(p: ProviderView, default: Seq<char>)
    ensures
        p.explicit ==> with_default(p, default) == p,
        !p.explicit ==> with_default(p, default) == (ProviderView { model: default, ..p }),
{
}

/// A session starts without a turn, an effort or a deliberate choice, with the ids
/// that it was given and the model and mode of the environment.
pub proof fn law_fresh_session_has_chosen_nothing(
    family: Seq<char>,
    model: Option<Seq<char>>,
    premium: Option<Seq<char>>,
    session_id: Seq<char>,
    machine_id: Seq<char>,
)
    ensures
        ({
            let p = fresh_session(family, model, premium, session_id, machine_id);
            &&& !p.explicit && p.user_turns == 0 && p.effort is None
            &&& p.session_id == session_id && p.machine_id == machine_id
            &&& model matches Some(model) ==> p.model == model
            &&& model is None ==> p.model == family + "-sonnet-4.6"@
            &&& p.premium_mode == premium_setting(premium)
        }),
{
}

/// The window is what the catalog says of the model; where it says nothing, what is
/// known of the window from elsewhere; and 128 000 where nobody knows.
pub proof fn law_window_is_the_best_known(
    p: ProviderView,
    specs: Map<Seq<char>, SpecView>,
    limits: Map<Seq<char>, usize>,
    table: Option<usize>,
)
    ensures
        ({
            let window = session_window(p, specs, limits, table);
            let stated = if specs.contains_key(p.model) {
                specs[p.model].context_window
            } else {
                None
            };
            let learned = crate::context_limits::window_in(limits, p.model);
            &&& stated matches Some(n) ==> window == n
            &&& stated is None ==> (learned matches Some(n) ==> window == n)
            &&& stated is None && learned is None ==> (table matches Some(n) ==> window == n)
            &&& stated is None && learned is None && table is None ==> window == 128_000
        }),
{
}

/// An effort is known by exactly seven names, in whatever case it is written.
pub proof fn law_efforts_are_known_by_name(effort: Seq<char>, k: int)
    ensures
        0 <= k < 7 && same_but_case(known_efforts()[k], effort) ==> known_effort(effort, 0)
            == Some(known_efforts()[k]),
        known_effort(effort, 0) matches Some(name) ==> same_but_case(name, effort),
        (forall|j: int| 0 <= j < 7 ==> !same_but_case(#[trigger] known_efforts()[j], effort))
            ==> known_effort(effort, 0) is None,
        known_efforts().len() == 7,
        known_efforts()[0] == "none"@ && known_efforts()[1] == "minimal"@ && known_efforts()[2]
            == "low"@ && known_efforts()[3] == "medium"@ && known_efforts()[4] == "high"@
            && known_efforts()[5] == "xhigh"@ && known_efforts()[6] == "max"@,
{
    lemma_effort_names();
    reveal_with_fuel(known_effort, 8);
    if 0 <= k < 7 && same_but_case(known_efforts()[k], effort) {
        assert forall|j: int| 0 <= j < 7 && j != k implies !same_but_case(
            #[trigger] known_efforts()[j],
            effort,
        ) by {
            lemma_efforts_differ(j, k);
        }
    }
}

proof fn lemma_effort_names()
    ensures
        "none"@.len() == 4 && "none"@[0] == 'n',
        "minimal"@.len() == 7,
        "low"@.len() == 3 && "low"@[0] == 'l',
        "medium"@.len() == 6,
        "high"@.len() == 4 && "high"@[0] == 'h',
        "xhigh"@.len() == 5,
        "max"@.len() == 3 && "max"@[0] == 'm',
{
    reveal_strlit("none");
    reveal_strlit("minimal");
    reveal_strlit("low");
    reveal_strlit("medium");
    reveal_strlit("high");
    reveal_strlit("xhigh");
    reveal_strlit("max");
}

proof fn lemma_efforts_differ(j: int, k: int)
    requires
        0 <= j < 7,
        0 <= k < 7,
        j != k,
    ensures
        !same_but_case(known_efforts()[j], known_efforts()[k]),
{
    lemma_effort_names();
    let a = known_efforts()[j];
    let b = known_efforts()[k];
    if same_but_case(a, b) {
        assert(crate::text::ascii_lowered(a).len() == crate::text::ascii_lowered(b).len());
        assert(crate::text::ascii_lowered(a)[0] == crate::text::ascii_lowered(b)[0]);
    }
}

/// An effort is chosen as the catalog spells it, the first that fits. A refusal
/// names the model, and, where it takes other efforts, lists these.
pub proof fn law_efforts_are_chosen_as_spelled(
    supported: Seq<Seq<char>>,
    model: Seq<char>,
    effort: Seq<char>,
    normal: Seq<char>,
    i: int,
)
    ensures
        0 <= i < supported.len() && same_but_case(supported[i], normal) && (forall|j: int|
            0 <= j < i ==> !same_but_case(#[trigger] supported[j], normal)) ==> effort_choice(
            supported,
            model,
            effort,
            normal,
        ) == Ok::<Seq<char>, Seq<char>>(supported[i]),
        supported.len() == 0 ==> effort_choice(supported, model, effort, normal) == Err::<
            Seq<char>,
            Seq<char>,
        >("Copilot model '"@ + model + "' does not accept a reasoning effort"@),
        supported.len() > 0 && (forall|j: int|
            0 <= j < supported.len() ==> !same_but_case(#[trigger] supported[j], normal))
            ==> effort_choice(supported, model, effort, normal) == Err::<Seq<char>, Seq<char>>(
            "Unsupported reasoning effort '"@ + effort + "' for Copilot model '"@ + model
                + "'. Supported: "@ + joined(supported, ", "@),
        ),
{
    if 0 <= i < supported.len() && same_but_case(supported[i], normal) && (forall|j: int|
        0 <= j < i ==> !same_but_case(#[trigger] supported[j], normal)) {
        lemma_first_effort(supported, normal, i, 0);
    }
    if forall|j: int|
        0 <= j < supported.len() ==> !same_but_case(#[trigger] supported[j], normal) {
        lemma_no_effort(supported, normal, 0);
    }
}

proof fn lemma_first_effort(supported: Seq<Seq<char>>, normal: Seq<char>, i: int, n: int)
    requires
        0 <= n <= i < supported.len(),
        same_but_case(supported[i], normal),
        forall|j: int| 0 <= j < i ==> !same_but_case(#[trigger] supported[j], normal),
    ensures
        effort_place(supported, normal, n) == Some(i),
    decreases i - n,
{
    if n < i {
        assert(!same_but_case(supported[n], normal));
        lemma_first_effort(supported, normal, i, n + 1);
    }
}

proof fn lemma_no_effort(supported: Seq<Seq<char>>, normal: Seq<char>, n: int)
    requires
        0 <= n <= supported.len(),
        forall|j: int|
            0 <= j < supported.len() ==> !same_but_case(#[trigger] supported[j], normal),
    ensures
        effort_place(supported, normal, n) is None,
    decreases supported.len() - n,
{
    if n < supported.len() {
        assert(!same_but_case(supported[n], normal));
        lemma_no_effort(supported, normal, n + 1);
    }
}

/// The chosen effort is sent to every model of the catalog that takes one, and to
/// no other.
pub proof fn law_chosen_effort_is_sent(
    p: ProviderView,
    specs: Map<Seq<char>, SpecView>,
    model: Seq<char>,
)
    ensures
        specs.contains_key(model) && specs[model].reasoning_efforts.len() > 0 ==> effort_to_send(
            p,
            specs,
            model,
        ) == p.effort,
        specs.contains_key(model) && specs[model].reasoning_efforts.len() == 0 ==> effort_to_send(
            p,
            specs,
            model,
        ) is None,
        !specs.contains_key(model) ==> effort_to_send(p, specs, model) is None,
        specs.contains_key(model) ==> efforts_in(specs, model) == specs[model].reasoning_efforts,
        !specs.contains_key(model) ==> efforts_in(specs, model).len() == 0,
{
}

proof fn lemma_named_before(efforts: Seq<Seq<char>>, e: Seq<char>, n: int)
    requires
        n <= efforts.len(),
    ensures
        named_efforts(efforts.push(e), n) == named_efforts(efforts, n),
    decreases n,
{
    if n > 0 {
        lemma_named_before(efforts, e, n - 1);
        assert(efforts.push(e)[n - 1] == efforts[n - 1]);
    }
}

/// The efforts on offer are the known ones of the catalog, each under its name and
/// in the catalog's order.
pub proof fn law_known_efforts_are_offered(efforts: Seq<Seq<char>>, e: Seq<char>)
    ensures
        ({
            let n = efforts.len() as int;
            let before = named_efforts(efforts, n);
            let after = named_efforts(efforts.push(e), n + 1);
            &&& known_effort(e, 0) matches Some(name) ==> after == before.push(name)
            &&& known_effort(e, 0) is None ==> after == before
            &&& named_efforts(Seq::<Seq<char>>::empty(), 0) == Seq::<Seq<char>>::empty()
        }),
{
    lemma_named_before(efforts, e, efforts.len() as int);
    assert(efforts.push(e)[efforts.len() as int] == e);
}

/// What is said of the catalog: where it is from, unless it is live, and the plan of
/// the seat, where that is known.
pub proof fn law_detail_names_source_and_plan(source: CatalogSource, plan: CopilotAccountType)
    ensures
        catalog_detail(CatalogSource::Missing, CopilotAccountType::Unknown)
            == "catalog still loading"@,
        catalog_detail(CatalogSource::Cached, CopilotAccountType::Unknown)
            == "cached live catalog"@,
        catalog_detail(CatalogSource::Live, CopilotAccountType::Unknown) == Seq::<char>::empty(),
        !(plan is Unknown) ==> catalog_detail(CatalogSource::Live, plan) == plan.name() + " plan"@,
        !(plan is Unknown) && !(source is Live) ==> catalog_detail(source, plan) == catalog_detail(
            source,
            CopilotAccountType::Unknown,
        ) + ", "@ + plan.name() + " plan"@,
        CopilotAccountType::Individual.name() == "individual"@,
        CopilotAccountType::Business.name() == "business"@,
        CopilotAccountType::Enterprise.name() == "enterprise"@,
        CopilotAccountType::Unknown.name() == "unknown"@,
{
    reveal_strlit("");
    assert(""@ =~= Seq::<char>::empty());
}

/// Before a catalog arrives there is no model, no word of one, and no plan.
pub proof fn law_nothing_is_shared_at_first()
    ensures
        nothing_shared().fetched_models.len() == 0,
        forall|model: Seq<char>| !#[trigger] nothing_shared().specs.contains_key(model),
        nothing_shared().source is Missing,
        nothing_shared().account_type is Unknown,
{
}

/// A turn is sent as it was built. Its log names the model, all of the messages and
/// tools and the effort that is sent; the system message is the first message, where
/// that is one, and the tools are one value, where there are any.
pub proof fn law_turn_is_sent_as_built(
    p: ProviderView,
    specs: Map<Seq<char>, SpecView>,
    users: bool,
    messages: Seq<JsonView>,
    tools: Seq<JsonView>,
    images: bool,
)
    ensures
        ({
            let t = turn_view(p, specs, users, messages, tools, images);
            &&& t.is_user_initiated == users && t.has_images == images
            &&& t.messages == messages && t.tools == tools
            &&& field(t.canonical, "model"@) == Some(JsonView::Str(p.model))
            &&& field(t.canonical, "messages"@) == Some(JsonView::Array(messages))
            &&& field(t.canonical, "tools"@) == Some(JsonView::Array(tools))
            &&& field(t.canonical, "reasoning_effort"@) == (match effort_to_send(
                p,
                specs,
                p.model,
            ) {
                Some(effort) => Some(JsonView::Str(effort)),
                None => None,
            })
            &&& t.system_value is Some <==> messages.len() > 0 && field(messages[0], "role"@)
                == Some(JsonView::Str("system"@))
            &&& t.system_value matches Some(system) ==> system == messages[0]
            &&& tools.len() == 0 ==> t.tools_value is None
            &&& tools.len() > 0 ==> t.tools_value == Some(JsonView::Array(tools))
        }),
{
    crate::request_laws::law_logged_turn_is_whole(
        p.model,
        messages,
        tools,
        32_768,
        effort_to_send(p, specs, p.model),
    );
}

} // verus!
