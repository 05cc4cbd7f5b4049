//! The Copilot provider: what one session has chosen, and what it shares with
//! its forks.

use crate::catalog::{CatalogSpecs, SpecView};
use crate::chat_messages::{build_messages, chat_entries, entries_json};
use crate::chat_request::{
    build_tools, canonical_body, canonical_payload, default_id, default_model, tool_json,
    with_effort,
};
use crate::context_limits::{context_limit_for_model_with_provider, window_in, ContextLimits};
use crate::copilot_catalog::CopilotAccountType;
use crate::copilot_enterprise::str_option;
use crate::json::{array, copy_all, field, json_views, string_in, Json, JsonView};
use crate::keyed::{copy_texts, text_views};
use crate::message::{
    block_views, message_views, text_option, BlockView, ChatMessage, ContentBlock, MessageView, Role,
    ToolDefinition,
};
use crate::text::{
    begins, contains, drop_char, eq_ignore_ascii_case, in_small_letters, join, joined, lowered,
    occurs, owned, parse_u64, same, same_but_case, strip_prefix, trim, trimmed, without_char,
    written_number,
};
use vstd::prelude::*;

verus! {

/// How a session spends premium requests.
#[derive(Clone, Copy, Debug, PartialEq, Eq, Structural)]
pub enum PremiumMode {
    /// Every turn of the user counts as one.
    Normal,
    /// Only the first turn of the session does.
    OnePerSession,
    /// No turn does.
    Zero,
}

/// Where a catalog comes from.
#[derive(Clone, Copy, Debug, PartialEq, Eq, Structural)]
pub enum CatalogSource {
    /// There is none yet.
    Missing,
    /// The disk.
    Cached,
    /// The API.
    Live,
}

/// What a request is for; Copilot attributes quota by it.
pub const OPENAI_INTENT: &'static str = "conversation-edits";

/// What a provider and its forks know of the account.
pub struct SharedCatalog {
    /// The models that the account can reach, as offered for selection.
    pub fetched_models: Vec<String>,
    /// What each model can do, as last reported.
    pub model_specs: CatalogSpecs,
    pub catalog_source: CatalogSource,
    /// The plan of the seat, once the seat has been looked up.
    pub account_type: CopilotAccountType,
}

/// The model of [`SharedCatalog`].
pub struct SharedView {
    pub fetched_models: Seq<Seq<char>>,
    pub specs: Map<Seq<char>, SpecView>,
    pub source: CatalogSource,
    pub account_type: CopilotAccountType,
}

impl View for SharedCatalog {
    type V = SharedView;

    open spec fn view(&self) -> SharedView {
        SharedView {
            fetched_models: text_views(self.fetched_models@),
            specs: self.model_specs@,
            source: self.catalog_source,
            account_type: self.account_type,
        }
    }
}

/// The efforts that a model takes, as far as the catalog says.
pub open spec fn efforts_in(specs: Map<Seq<char>, SpecView>, model: Seq<char>) -> Seq<
    Seq<char>,
> {
    if specs.contains_key(model) {
        specs[model].reasoning_efforts
    } else {
        seq![]
    }
}

/// What is known before any catalog has arrived.
pub open spec fn nothing_shared() -> SharedView {
    SharedView {
        fetched_models: seq![],
        specs: Map::empty(),
        source: CatalogSource::Missing,
        account_type: CopilotAccountType::Unknown,
    }
}

/// What a catalog's source is called; empty for a live one.
pub open spec fn source_name(source: CatalogSource) -> Seq<char> {
    match source {
        CatalogSource::Live => ""@,
        CatalogSource::Cached => "cached live catalog"@,
        CatalogSource::Missing => "catalog still loading"@,
    }
}

/// What there is to say of a catalog: its source unless it is live, and the plan
/// where it is known.
pub open spec fn catalog_detail(source: CatalogSource, account_type: CopilotAccountType) -> Seq<
    char,
> {
    let live = source is Live;
    let plan = account_type.name();
    if account_type is Unknown {
        source_name(source)
    } else if live {
        plan + " plan"@
    } else {
        source_name(source) + ", "@ + plan + " plan"@
    }
}

impl SharedCatalog {
    /// Nothing is known yet.
    pub fn new() -> (r: SharedCatalog)
        ensures
            r@ == nothing_shared(),
    {
        let r = SharedCatalog {
            fetched_models: Vec::new(),
            model_specs: CatalogSpecs::default(),
            catalog_source: CatalogSource::Missing,
            account_type: CopilotAccountType::Unknown,
        };
        assert(r@.fetched_models =~= seq![]);
        r
    }

    /// The reasoning efforts that a model takes.
    pub fn efforts_for(&self, model: &str) -> (r: Vec<String>)
        ensures
            text_views(r@) == efforts_in(self@.specs, model@),
    {
        self.model_specs.reasoning_efforts_for(model)
    }

    /// Whether the catalog says that a model takes images.
    pub fn model_supports_vision(&self, model: &str) -> (r: bool)
        ensures
            r == (self@.specs.contains_key(model@) && self@.specs[model@].supports_vision),
    {
        self.model_specs.supports_vision(model)
    }

    /// Whether a model takes a reasoning effort.
    pub fn model_supports_reasoning_effort(&self, model: &str) -> (r: bool)
        ensures
            r == (efforts_in(self@.specs, model@).len() > 0),
    {
        self.efforts_for(model).len() > 0
    }

    /// Whether any catalog is loaded.
    pub fn has_catalog(&self) -> (r: bool)
        ensures
            r == (self@.fetched_models.len() > 0),
    {
        self.fetched_models.len() > 0
    }

    /// The models that are offered.
    pub fn available_model_ids(&self) -> (r: Vec<String>)
        ensures
            text_views(r@) == self@.fetched_models,
    {
        copy_texts(&self.fetched_models)
    }

    /// The models that the account can reach. There are none until a catalog has
    /// arrived: which ones there are is known from the catalog only.
    pub fn available_models_display(&self) -> (r: Vec<String>)
        ensures
            text_views(r@) == self@.fetched_models,
    {
        copy_texts(&self.fetched_models)
    }

    /// The models that can be switched to: exactly those on display.
    pub fn available_models_for_switching(&self) -> (r: Vec<String>)
        ensures
            text_views(r@) == self@.fetched_models,
    {
        self.available_models_display()
    }

    /// What there is to say of the catalog.
    pub fn model_catalog_detail(&self) -> (r: String)
        ensures
            r@ == catalog_detail(self@.source, self@.account_type),
    {
        let mut r = match self.catalog_source {
            CatalogSource::Live => owned(""),
            CatalogSource::Cached => owned("cached live catalog"),
            CatalogSource::Missing => owned("catalog still loading"),
        };
        match self.account_type {
            CopilotAccountType::Unknown => {},
            _ => {
                match self.catalog_source {
                    CatalogSource::Live => {
                        r = self.account_type.to_text();
                    },
                    _ => {
                        r.append(", ");
                        r.append(self.account_type.to_text().as_str());
                    },
                }
                r.append(" plan");
            },
        }
        r
    }

    /// Whether to fetch the catalog now, `elapsed_ms` after the start. Only a
    /// catalog that is loaded and young puts it off: the first fetch never is.
    pub fn wants_prefetch(&self, elapsed_ms: u128, grace_ms: u64) -> (r: bool)
        ensures
            r == !(self@.fetched_models.len() > 0 && elapsed_ms < grace_ms),
    {
        !(self.has_catalog() && elapsed_ms < (grace_ms as u128))
    }
}

/// The models that are known without a catalog: none.
pub fn available_models() -> (r: Vec<&'static str>)
    ensures
        r@.len() == 0,
{
    Vec::new()
}

/// How long a loaded catalog puts off a fetch, given the environment's setting.
pub fn startup_prefetch_grace_ms(setting: Option<&str>) -> (r: u64)
    ensures
        r == (match setting {
            Some(text) => match written_number(text@) {
                Some(n) => if n <= u64::MAX {
                    n as u64
                } else {
                    2000
                },
                None => 2000,
            },
            None => 2000,
        }),
{
    match setting {
        Some(text) => match parse_u64(text) {
            Some(n) => n,
            None => 2000,
        },
        None => 2000,
    }
}

/// The id of this machine, given what is on file and a fresh UUID. Says whether
/// the id is new and has to be filed.
pub fn get_or_create_machine_id(on_file: Option<&str>, fresh: &str) -> (r: (String, bool))
    ensures
        (match str_option(on_file) {
            Some(id) => if trimmed(id).len() > 0 {
                r.0@ == trimmed(id) && !r.1
            } else {
                r.0@ == without_char(fresh@, '-') && r.1
            },
            None => r.0@ == without_char(fresh@, '-') && r.1,
        }),
{
    match on_file {
        Some(id) => {
            let id = trim(id);
            if !id.is_empty() {
                return (owned(id), false);
            }
        },
        None => {},
    }
    (drop_char(fresh, '-'), true)
}

/// Whether a block is text.
pub open spec fn is_text(block: BlockView) -> bool {
    block is Text
}

/// Whether a block is a reminder that the agent injected.
pub open spec fn is_reminder(block: BlockView) -> bool {
    block matches BlockView::Text { text } && occurs(text, "<system-reminder>"@)
}

/// Whether the last of the first `n` messages that says something says that the
/// user asked: a tool result says that the agent goes on, and an injected
/// reminder says nothing.
pub open spec fn user_asked(messages: Seq<MessageView>, n: int) -> bool
    decreases n,
{
    if n <= 0 {
        true
    } else {
        let m = messages[n - 1];
        if m.role is Assistant {
            true
        } else if exists|i: int|
            0 <= i < m.content.len() && #[trigger] m.content[i] is ToolResult {
            false
        } else if m.content.len() == 0 || !(forall|i: int|
            0 <= i < m.content.len() ==> is_text(#[trigger] m.content[i])) {
            true
        } else if exists|i: int|
            0 <= i < m.content.len() && is_reminder(#[trigger] m.content[i]) {
            user_asked(messages, n - 1)
        } else {
            true
        }
    }
}

/// Whether a turn was initiated by the user, going by its messages alone.
pub fn is_user_initiated_raw(messages: &Vec<ChatMessage>) -> (r: bool)
    ensures
        r == user_asked(message_views(messages@), messages@.len() as int),
{
    let ghost views = message_views(messages@);
    let mut n: usize = messages.len();
    while n > 0
        invariant
            n <= messages@.len(),
            views == message_views(messages@),
            user_asked(views, messages@.len() as int) == user_asked(views, n as int),
        decreases n,
    {
        let message = &messages[n - 1];
        let ghost m = views[n - 1];
        assert(m == messages@[n - 1]@);
        match message.role {
            Role::Assistant => {
                return true;
            },
            Role::User => {},
        }
        let mut all_text = true;
        let mut reminder = false;
        let mut i: usize = 0;
        while i < message.content.len()
            invariant
                i <= message.content@.len(),
                n > 0,
                n <= messages@.len(),
                m.role is User,
                m == views[n - 1],
                user_asked(views, messages@.len() as int) == user_asked(views, n as int),
                m.content == block_views(message.content@),
                forall|k: int| 0 <= k < i ==> !(#[trigger] m.content[k] is ToolResult),
                all_text == (forall|k: int| 0 <= k < i ==> is_text(#[trigger] m.content[k])),
                reminder == (exists|k: int| 0 <= k < i && is_reminder(#[trigger] m.content[k])),
                views == message_views(messages@),
            decreases message.content@.len() - i,
        {
            assert(m.content[i as int] == message.content@[i as int]@);
            match &message.content[i] {
                ContentBlock::ToolResult { tool_use_id: _, content: _, is_error: _ } => {
                    assert(m.content[i as int] is ToolResult);
                    return false;
                },
                ContentBlock::Text { text } => {
                    if contains(text.as_str(), "<system-reminder>") {
                        assert(is_reminder(m.content[i as int]));
                        reminder = true;
                    }
                    assert(is_text(m.content[i as int]));
                },
                _ => {
                    assert(!is_text(m.content[i as int]));
                    all_text = false;
                },
            }
            i = i + 1;
        }
        if !all_text || message.content.len() == 0 {
            return true;
        }
        if !reminder {
            return true;
        }
        n = n - 1;
    }
    true
}

/// Whether any message carries an image, also inside a tool result.
pub open spec fn carries_image(messages: Seq<MessageView>) -> bool {
    exists|i: int, j: int|
        0 <= i < messages.len() && 0 <= j < messages[i].content.len() && is_image(
            #[trigger] messages[i].content[j],
        )
}

/// Whether a block is, or holds, an image.
pub open spec fn is_image(block: BlockView) -> bool {
    match block {
        BlockView::Image { .. } => true,
        BlockView::ToolResult { content, .. } => occurs(content, "data:image/"@),
        _ => false,
    }
}

/// Whether any message carries an image.
pub fn has_images(messages: &Vec<ChatMessage>) -> (r: bool)
    ensures
        r == carries_image(message_views(messages@)),
{
    let ghost views = message_views(messages@);
    let mut i: usize = 0;
    while i < messages.len()
        invariant
            i <= messages@.len(),
            views == message_views(messages@),
            forall|a: int, b: int|
                0 <= a < i && 0 <= b < views[a].content.len() ==> !is_image(
                    #[trigger] views[a].content[b],
                ),
        decreases messages@.len() - i,
    {
        let message = &messages[i];
        assert(views[i as int] == message@);
        let mut j: usize = 0;
        while j < message.content.len()
            invariant
                j <= message.content@.len(),
                i < messages@.len(),
                views == message_views(messages@),
                views[i as int].content == block_views(message.content@),
                forall|b: int|
                    0 <= b < j ==> !is_image(#[trigger] views[i as int].content[b]),
            decreases message.content@.len() - j,
        {
            let ghost block = views[i as int].content[j as int];
            assert(block == message.content@[j as int]@);
            let found = match &message.content[j] {
                ContentBlock::Image { media_type: _, data: _ } => true,
                ContentBlock::ToolResult { tool_use_id: _, content, is_error: _ } => contains(
                    content.as_str(),
                    "data:image/",
                ),
                _ => false,
            };
            assert(found == is_image(block));
            if found {
                return true;
            }
            j = j + 1;
        }
        i = i + 1;
    }
    false
}

/// The efforts that are known by name.
pub open spec fn known_efforts() -> Seq<Seq<char>> {
    seq!["none"@, "minimal"@, "low"@, "medium"@, "high"@, "xhigh"@, "max"@]
}

/// The known effort that reads like `effort` but for the case of letters.
pub open spec fn known_effort(effort: Seq<char>, n: int) -> Option<Seq<char>>
    decreases known_efforts().len() - n,
{
    if n < 0 || n >= known_efforts().len() {
        None
    } else if same_but_case(known_efforts()[n], effort) {
        Some(known_efforts()[n])
    } else {
        known_effort(effort, n + 1)
    }
}

/// The known effort that reads like `effort` but for the case of letters.
pub fn intern_effort(effort: &str) -> (r: Option<&'static str>)
    ensures
        str_option(r) == known_effort(effort@, 0),
{
    proof {
        reveal_with_fuel(known_effort, 8);
    }
    if eq_ignore_ascii_case("none", effort) {
        return Some("none");
    }
    if eq_ignore_ascii_case("minimal", effort) {
        return Some("minimal");
    }
    if eq_ignore_ascii_case("low", effort) {
        return Some("low");
    }
    if eq_ignore_ascii_case("medium", effort) {
        return Some("medium");
    }
    if eq_ignore_ascii_case("high", effort) {
        return Some("high");
    }
    if eq_ignore_ascii_case("xhigh", effort) {
        return Some("xhigh");
    }
    if eq_ignore_ascii_case("max", effort) {
        return Some("max");
    }
    None
}

/// The place of the first effort, from the `n`th on, that reads like `wanted`
/// but for the case of letters.
pub open spec fn effort_place(supported: Seq<Seq<char>>, wanted: Seq<char>, n: int) -> Option<int>
    decreases supported.len() - n,
{
    if n < 0 || n >= supported.len() {
        None
    } else if same_but_case(supported[n], wanted) {
        Some(n)
    } else {
        effort_place(supported, wanted, n + 1)
    }
}

/// The first effort that reads like `wanted` but for the case of letters.
pub fn find_effort(supported: &Vec<String>, wanted: &str) -> (r: Option<usize>)
    ensures
        (match r {
            Some(i) => i < supported@.len() && effort_place(
                text_views(supported@),
                wanted@,
                0,
            ) == Some(i as int),
            None => effort_place(text_views(supported@), wanted@, 0) is None,
        }),
{
    let mut i: usize = 0;
    while i < supported.len()
        invariant
            i <= supported@.len(),
            effort_place(text_views(supported@), wanted@, 0) == effort_place(
                text_views(supported@),
                wanted@,
                i as int,
            ),
        decreases supported@.len() - i,
    {
        if eq_ignore_ascii_case(supported[i].as_str(), wanted) {
            return Some(i);
        }
        i = i + 1;
    }
    None
}

/// The message for a model that takes no effort.
pub open spec fn no_effort_text(model: Seq<char>) -> Seq<char> {
    "Copilot model '"@ + model + "' does not accept a reasoning effort"@
}

/// The message for an effort that a model does not take.
pub open spec fn bad_effort_text(
    effort: Seq<char>,
    model: Seq<char>,
    supported: Seq<Seq<char>>,
) -> Seq<char> {
    "Unsupported reasoning effort '"@ + effort + "' for Copilot model '"@ + model
        + "'. Supported: "@ + joined(supported, ", "@)
}

/// What a choice of `effort` comes to for a model that takes `supported`, where
/// `normal` is the effort in small letters.
pub open spec fn effort_choice(
    supported: Seq<Seq<char>>,
    model: Seq<char>,
    effort: Seq<char>,
    normal: Seq<char>,
) -> Result<Seq<char>, Seq<char>> {
    if supported.len() == 0 {
        Err(no_effort_text(model))
    } else {
        match effort_place(supported, normal, 0) {
            Some(i) => Ok(supported[i]),
            None => Err(bad_effort_text(effort, model, supported)),
        }
    }
}

/// What a choice of `effort` comes to: the effort as the catalog spells it, or a
/// message. `normal` is the effort in small letters.
pub fn choose_effort(supported: &Vec<String>, model: &str, effort: &str, normal: &str) -> (r: Result<
    String,
    String,
>)
    ensures
        (match r {
            Ok(chosen) => effort_choice(text_views(supported@), model@, effort@, normal@) == Ok::<
                Seq<char>,
                Seq<char>,
            >(chosen@),
            Err(message) => effort_choice(text_views(supported@), model@, effort@, normal@) == Err::<
                Seq<char>,
                Seq<char>,
            >(message@),
        }),
{
    if supported.len() == 0 {
        let mut message = owned("Copilot model '");
        message.append(model);
        message.append("' does not accept a reasoning effort");
        return Err(message);
    }
    match find_effort(supported, normal) {
        Some(i) => Ok(supported[i].clone()),
        None => {
            let mut message = owned("Unsupported reasoning effort '");
            message.append(effort);
            message.append("' for Copilot model '");
            message.append(model);
            message.append("'. Supported: ");
            message.append(join(supported, ", ").as_str());
            Err(message)
        },
    }
}

/// A model id as a user may give it, with or without the provider in front.
pub open spec fn own_model(model: Seq<char>) -> Seq<char> {
    let name = trimmed(model);
    if begins(name, "copilot:"@) {
        trimmed(name.skip("copilot:"@.len() as int))
    } else {
        name
    }
}

/// The message for a choice of no model.
pub open spec fn empty_model_text() -> Seq<char> {
    "Copilot model cannot be empty"@
}

/// The message for a model with the long context window.
pub open spec fn long_context_text() -> Seq<char> {
    "1M context window models are not supported via Copilot. Use the Anthropic API directly."@
}

/// The model that a choice selects, or why it selects none.
pub open spec fn model_choice(model: Seq<char>) -> Result<Seq<char>, Seq<char>> {
    let name = own_model(model);
    if name.len() == 0 {
        Err(empty_model_text())
    } else if occurs(name, "[1m]"@) {
        Err(long_context_text())
    } else {
        Ok(name)
    }
}

/// What one session has chosen.
pub struct CopilotApiProvider {
    pub model: String,
    /// Set once a caller has picked a model. The catalog arrives later than such
    /// a choice, and its default must not replace it.
    pub model_explicitly_selected: bool,
    pub premium_mode: PremiumMode,
    /// How many turns of the user this session has had.
    pub user_turn_count: u64,
    pub reasoning_effort: Option<String>,
    pub session_id: String,
    pub machine_id: String,
}

/// The model of [`CopilotApiProvider`].
pub struct ProviderView {
    pub model: Seq<char>,
    pub explicit: bool,
    pub premium_mode: PremiumMode,
    pub user_turns: u64,
    pub effort: Option<Seq<char>>,
    pub session_id: Seq<char>,
    pub machine_id: Seq<char>,
}

impl View for CopilotApiProvider {
    type V = ProviderView;

    open spec fn view(&self) -> ProviderView {
        ProviderView {
            model: self.model@,
            explicit: self.model_explicitly_selected,
            premium_mode: self.premium_mode,
            user_turns: self.user_turn_count,
            effort: text_option(self.reasoning_effort),
            session_id: self.session_id@,
            machine_id: self.machine_id@,
        }
    }
}

/// The mode that the environment sets.
pub open spec fn premium_setting(setting: Option<Seq<char>>) -> PremiumMode {
    if setting == Some("0"@) {
        PremiumMode::Zero
    } else if setting == Some("1"@) {
        PremiumMode::OnePerSession
    } else {
        PremiumMode::Normal
    }
}

/// The mode that the environment sets.
pub fn env_premium_mode(setting: Option<&str>) -> (r: PremiumMode)
    ensures
        r == premium_setting(str_option(setting)),
{
    match setting {
        Some(text) => {
            if same(text, "0") {
                PremiumMode::Zero
            } else if same(text, "1") {
                PremiumMode::OnePerSession
            } else {
                PremiumMode::Normal
            }
        },
        None => PremiumMode::Normal,
    }
}

/// A session that has chosen nothing but what the environment sets.
pub open spec fn fresh_session(
    family: Seq<char>,
    model: Option<Seq<char>>,
    premium: Option<Seq<char>>,
    session_id: Seq<char>,
    machine_id: Seq<char>,
) -> ProviderView {
    ProviderView {
        model: match model {
            Some(model) => model,
            None => default_id(family),
        },
        explicit: false,
        premium_mode: premium_setting(premium),
        user_turns: 0,
        effort: None,
        session_id,
        machine_id,
    }
}

/// Whether a turn counts as the user's, in a mode and after so many turns.
pub open spec fn counts_as_user(p: ProviderView, asked: bool) -> bool {
    asked && match p.premium_mode {
        PremiumMode::Zero => false,
        PremiumMode::OnePerSession => p.user_turns == 0,
        PremiumMode::Normal => true,
    }
}

/// The effort to send for a model: the session's, where the model takes one.
pub open spec fn effort_to_send(
    p: ProviderView,
    specs: Map<Seq<char>, SpecView>,
    model: Seq<char>,
) -> Option<Seq<char>> {
    if efforts_in(specs, model).len() > 0 {
        p.effort
    } else {
        None
    }
}

/// The context window of a session's model: the catalog's, else the one that the
/// process knows, else 128,000.
pub open spec fn session_window(
    p: ProviderView,
    specs: Map<Seq<char>, SpecView>,
    limits: Map<Seq<char>, usize>,
    table: Option<usize>,
) -> usize {
    if specs.contains_key(p.model) && specs[p.model].context_window is Some {
        specs[p.model].context_window->0
    } else {
        match window_in(limits, p.model) {
            Some(window) => window,
            None => match table {
                Some(window) => window,
                None => 128_000,
            },
        }
    }
}

/// The session after a catalog's default arrived.
pub open spec fn with_default(p: ProviderView, default: Seq<char>) -> ProviderView {
    if p.explicit {
        p
    } else {
        ProviderView { model: default, ..p }
    }
}

impl CopilotApiProvider {
    /// A new session, given the environment's settings of model and premium
    /// mode. `family` is what the ids of Anthropic's models begin with.
    pub fn new(
        family: &str,
        model: Option<&str>,
        premium: Option<&str>,
        session_id: String,
        machine_id: String,
    ) -> (r: CopilotApiProvider)
        ensures
            r@ == fresh_session(
                family@,
                str_option(model),
                str_option(premium),
                session_id@,
                machine_id@,
            ),
    {
        CopilotApiProvider {
            model: match model {
                Some(model) => owned(model),
                None => default_model(family),
            },
            model_explicitly_selected: false,
            premium_mode: env_premium_mode(premium),
            user_turn_count: 0,
            reasoning_effort: None,
            session_id,
            machine_id,
        }
    }

    /// The provider's name.
    pub fn name(&self) -> (r: &'static str)
        ensures
            r@ == "copilot"@,
    {
        "copilot"
    }

    /// The model of this session.
    pub fn model(&self) -> (r: String)
        ensures
            r@ == self@.model,
    {
        self.model.clone()
    }

    /// Picks a model for this session. The choice is deliberate: a catalog's
    /// default does not replace it.
    pub fn set_model(&mut self, model: &str) -> (r: Result<(), String>)
        ensures
            (match model_choice(model@) {
                Ok(name) => r is Ok && final(self)@ == (ProviderView {
                    model: name,
                    explicit: true,
                    ..old(self)@
                }),
                Err(text) => r matches Err(message) && message@ == text && final(self)@
                    == old(self)@,
            }),
    {
        let whole = trim(model);
        let name = match strip_prefix(whole, "copilot:") {
            Some(rest) => trim(rest),
            None => whole,
        };
        if name.is_empty() {
            return Err(owned("Copilot model cannot be empty"));
        }
        if contains(name, "[1m]") {
            return Err(
                owned(
                    "1M context window models are not supported via Copilot. Use the Anthropic API directly.",
                ),
            );
        }
        self.model = owned(name);
        self.model_explicitly_selected = true;
        Ok(())
    }

    /// Puts `model` in place without marking it as picked.
    pub fn write_model(&mut self, model: String)
        ensures
            final(self)@ == (ProviderView { model: model@, ..old(self)@ }),
    {
        self.model = model;
    }

    /// Installs a catalog's default, unless a model was picked.
    pub fn apply_catalog_default(&mut self, catalog_default: String)
        ensures
            final(self)@ == with_default(old(self)@, catalog_default@),
    {
        if !self.model_explicitly_selected {
            self.write_model(catalog_default);
        }
    }

    /// Sets how this session spends premium requests.
    pub fn set_premium_mode(&mut self, mode: PremiumMode)
        ensures
            final(self)@ == (ProviderView { premium_mode: mode, ..old(self)@ }),
    {
        self.premium_mode = mode;
    }

    /// How this session spends premium requests.
    pub fn get_premium_mode(&self) -> (r: PremiumMode)
        ensures
            r == self@.premium_mode,
    {
        self.premium_mode
    }

    /// Conversations can be compacted.
    pub fn supports_compaction(&self) -> (r: bool)
        ensures
            r,
    {
        true
    }

    /// Whether a turn counts as initiated by the user.
    pub fn is_user_initiated(&self, messages: &Vec<ChatMessage>) -> (r: bool)
        ensures
            r == counts_as_user(
                self@,
                user_asked(message_views(messages@), messages@.len() as int),
            ),
    {
        if !is_user_initiated_raw(messages) {
            return false;
        }
        match self.premium_mode {
            PremiumMode::Zero => false,
            PremiumMode::OnePerSession => self.user_turn_count == 0,
            PremiumMode::Normal => true,
        }
    }

    /// The effort that was chosen last.
    pub fn current_reasoning_effort(&self) -> (r: Option<String>)
        ensures
            text_option(r) == self@.effort,
    {
        match &self.reasoning_effort {
            Some(effort) => Some(effort.clone()),
            None => None,
        }
    }

    /// The effort to send for `model`: nothing where none was chosen or the
    /// model takes none.
    pub fn reasoning_effort_for(&self, catalog: &SharedCatalog, model: &str) -> (r: Option<String>)
        ensures
            text_option(r) == effort_to_send(self@, catalog@.specs, model@),
    {
        if !catalog.model_supports_reasoning_effort(model) {
            return None;
        }
        self.current_reasoning_effort()
    }

    /// Writes the effort into a request body, where there is one to send.
    pub fn add_reasoning_effort_parameter(
        &self,
        catalog: &SharedCatalog,
        body: &mut Json,
        model: &str,
    )
        requires
            old(body)@ is Object || old(body)@ is Null,
        ensures
            final(body)@ == with_effort(
                old(body)@,
                effort_to_send(self@, catalog@.specs, model@),
            ),
    {
        match self.reasoning_effort_for(catalog, model) {
            Some(effort) => {
                body.set("reasoning_effort", Json::text(effort.as_str()));
            },
            None => {},
        }
    }

    /// The effort that applies to this session's model.
    pub fn reasoning_effort(&self, catalog: &SharedCatalog) -> (r: Option<String>)
        ensures
            text_option(r) == effort_to_send(self@, catalog@.specs, self@.model),
    {
        self.reasoning_effort_for(catalog, self.model.as_str())
    }

    /// Chooses an effort for this session, if its model takes it.
    pub fn set_reasoning_effort(&mut self, catalog: &SharedCatalog, effort: &str) -> (r: Result<
        (),
        String,
    >)
        ensures
            (match effort_choice(
                efforts_in(catalog@.specs, old(self)@.model),
                old(self)@.model,
                effort@,
                lowered(trimmed(effort@)),
            ) {
                Ok(chosen) => r is Ok && final(self)@ == (ProviderView {
                    effort: Some(chosen),
                    ..old(self)@
                }),
                Err(text) => r matches Err(message) && message@ == text && final(self)@
                    == old(self)@,
            }),
    {
        let supported = catalog.efforts_for(self.model.as_str());
        let normal = in_small_letters(trim(effort));
        match choose_effort(&supported, self.model.as_str(), effort, normal.as_str()) {
            Ok(chosen) => {
                self.reasoning_effort = Some(chosen);
                Ok(())
            },
            Err(message) => Err(message),
        }
    }

    /// The efforts that this session's model takes, as far as they are known by
    /// name.
    pub fn available_efforts(&self, catalog: &SharedCatalog) -> (r: Vec<&'static str>)
        ensures
            r@.map_values(|e: &'static str| e@) == named_efforts(
                efforts_in(catalog@.specs, self@.model),
                efforts_in(catalog@.specs, self@.model).len() as int,
            ),
    {
        let efforts = catalog.efforts_for(self.model.as_str());
        let mut r: Vec<&'static str> = Vec::new();
        let mut i: usize = 0;
        assert(r@.map_values(|e: &'static str| e@) =~= seq![]);
        while i < efforts.len()
            invariant
                i <= efforts@.len(),
                r@.map_values(|e: &'static str| e@) == named_efforts(text_views(efforts@), i as int),
            decreases efforts@.len() - i,
        {
            let ghost before = r@;
            match intern_effort(efforts[i].as_str()) {
                Some(name) => {
                    r.push(name);
                    assert(r@.map_values(|e: &'static str| e@) =~= before.map_values(
                        |e: &'static str| e@,
                    ).push(name@));
                },
                None => {},
            }
            i = i + 1;
        }
        r
    }

    /// The context window of this session's model, where `table` is what the
    /// static table says of it.
    pub fn context_window(
        &self,
        catalog: &SharedCatalog,
        limits: &ContextLimits,
        table: Option<usize>,
    ) -> (r: usize)
        ensures
            r == session_window(self@, catalog@.specs, limits@, table),
    {
        match catalog.model_specs.context_window_for(self.model.as_str()) {
            Some(window) => {
                return window;
            },
            None => {},
        }
        match context_limit_for_model_with_provider(
            limits,
            self.model.as_str(),
            Some(self.name()),
            table,
        ) {
            Some(window) => window,
            None => 128_000,
        }
    }

    /// A session that starts with what this one has chosen. From then on each
    /// has its own choices; what is known of the account stays common.
    pub fn fork(&self) -> (r: CopilotApiProvider)
        ensures
            r@ == self@,
    {
        CopilotApiProvider {
            model: self.model.clone(),
            model_explicitly_selected: self.model_explicitly_selected,
            premium_mode: self.premium_mode,
            user_turn_count: self.user_turn_count,
            reasoning_effort: self.current_reasoning_effort(),
            session_id: self.session_id.clone(),
            machine_id: self.machine_id.clone(),
        }
    }

    /// Begins a turn: counts it where it is the user's, and prepares what is
    /// sent and logged of it.
    pub fn begin_turn(
        &mut self,
        catalog: &SharedCatalog,
        messages: &Vec<ChatMessage>,
        tools: &Vec<ToolDefinition>,
        system: &str,
    ) -> (r: Turn)
        ensures
            ({
                let users = counts_as_user(
                    old(self)@,
                    user_asked(message_views(messages@), messages@.len() as int),
                );
                &&& final(self)@ == (ProviderView {
                    user_turns: if users {
                        crate::copilot_enterprise::next_generation(old(self)@.user_turns)
                    } else {
                        old(self)@.user_turns
                    },
                    ..old(self)@
                })
                &&& r@ == turn_view(
                    old(self)@,
                    catalog@.specs,
                    users,
                    entries_json(chat_entries(system@, message_views(messages@))),
                    tools@.map_values(|t: ToolDefinition| tool_json(t)),
                    carries_image(message_views(messages@)),
                )
            }),
    {
        let is_user_initiated = self.is_user_initiated(messages);
        if is_user_initiated {
            self.user_turn_count = self.user_turn_count.wrapping_add(1);
        }
        let built = build_messages(system, messages);
        let built_tools = build_tools(tools);
        let effort = self.reasoning_effort_for(catalog, self.model.as_str());
        let canonical = canonical_payload(
            self.model.as_str(),
            &built,
            &built_tools,
            32_768,
            match &effort {
                Some(effort) => Some(effort.as_str()),
                None => None,
            },
        );
        let system_value = first_system(&built);
        let tools_value = if built_tools.len() == 0 {
            None
        } else {
            Some(array(copy_all(&built_tools)))
        };
        Turn {
            is_user_initiated,
            messages: built,
            tools: built_tools,
            has_images: has_images(messages),
            canonical,
            system_value,
            tools_value,
        }
    }
}

/// The efforts among the first `n` that are known by name.
pub open spec fn named_efforts(efforts: Seq<Seq<char>>, n: int) -> Seq<Seq<char>>
    decreases n,
{
    if n <= 0 {
        seq![]
    } else {
        match known_effort(efforts[n - 1], 0) {
            Some(name) => named_efforts(efforts, n - 1).push(name),
            None => named_efforts(efforts, n - 1),
        }
    }
}

/// A turn that has begun.
pub struct Turn {
    pub is_user_initiated: bool,
    /// The messages and tools in the shape of the chat route.
    pub messages: Vec<Json>,
    pub tools: Vec<Json>,
    pub has_images: bool,
    /// What identifies the turn in the logs.
    pub canonical: Json,
    /// The system message, if the first message is one.
    pub system_value: Option<Json>,
    /// The tools as one value, if there are any.
    pub tools_value: Option<Json>,
}

/// The model of [`Turn`].
pub struct TurnStart {
    pub is_user_initiated: bool,
    pub messages: Seq<JsonView>,
    pub tools: Seq<JsonView>,
    pub has_images: bool,
    pub canonical: JsonView,
    pub system_value: Option<JsonView>,
    pub tools_value: Option<JsonView>,
}

/// The model of a value that may be absent.
pub open spec fn value_option(value: Option<Json>) -> Option<JsonView> {
    match value {
        Some(value) => Some(value@),
        None => None,
    }
}

impl View for Turn {
    type V = TurnStart;

    open spec fn view(&self) -> TurnStart {
        TurnStart {
            is_user_initiated: self.is_user_initiated,
            messages: json_views(self.messages@),
            tools: json_views(self.tools@),
            has_images: self.has_images,
            canonical: self.canonical@,
            system_value: value_option(self.system_value),
            tools_value: value_option(self.tools_value),
        }
    }
}

/// The first message, if it is a system message.
pub open spec fn system_message(messages: Seq<JsonView>) -> Option<JsonView> {
    if messages.len() > 0 && string_in(field(messages[0], "role"@)) == Some("system"@) {
        Some(messages[0])
    } else {
        None
    }
}

/// The first message, if it is a system message.
fn first_system(messages: &Vec<Json>) -> (r: Option<Json>)
    ensures
        value_option(r) == system_message(json_views(messages@)),
{
    if messages.len() == 0 {
        return None;
    }
    assert(json_views(messages@)[0] == messages@[0]@);
    match messages[0].get("role") {
        Some(role) => match role.as_str() {
            Some(role) => {
                if same(role, "system") {
                    Some(messages[0].copy())
                } else {
                    None
                }
            },
            None => None,
        },
        None => None,
    }
}

/// A turn with these messages and tools.
pub open spec fn turn_view(
    p: ProviderView,
    specs: Map<Seq<char>, SpecView>,
    is_user_initiated: bool,
    messages: Seq<JsonView>,
    tools: Seq<JsonView>,
    has_images: bool,
) -> TurnStart {
    TurnStart {
        is_user_initiated,
        messages,
        tools,
        has_images,
        canonical: canonical_body(
            p.model,
            messages,
            tools,
            32_768,
            effort_to_send(p, specs, p.model),
        ),
        system_value: system_message(messages),
        tools_value: if tools.len() == 0 {
            None
        } else {
            Some(JsonView::Array(tools))
        },
    }
}

/// A model that was picked stays, whatever default a catalog brings later; and a
/// fork, which starts with the same choices, keeps it too.
pub proof fn law_picked_model_stays(p: ProviderView, model: Seq<char>, default: Seq<char>)
    requires
        model_choice(model) is Ok,
    ensures
        with_default(
            ProviderView { model: model_choice(model)->Ok_0, explicit: true, ..p },
            default,
        ).model == model_choice(model)->Ok_0,
{
}

/// A session in the mode of one premium request counts one turn of the user at
/// most: once one was counted, no further turn counts.
pub proof fn law_one_premium_request(p: ProviderView, asked: bool)
    requires
        p.premium_mode is OnePerSession,
        p.user_turns > 0,
    ensures
        !counts_as_user(p, asked),
{
}

/// A model that takes no effort is never sent one.
pub proof fn law_no_effort_for_models_without(
    p: ProviderView,
    specs: Map<Seq<char>, SpecView>,
    model: Seq<char>,
)
    requires
        efforts_in(specs, model).len() == 0,
    ensures
        effort_to_send(p, specs, model) is None,
{
}

proof fn lemma_effort_place(supported: Seq<Seq<char>>, normal: Seq<char>, from: int)
    requires
        0 <= from,
    ensures
        effort_place(supported, normal, from) matches Some(i) ==> from <= i < supported.len()
            && same_but_case(supported[i], normal),
        effort_place(supported, normal, from) is None ==> (forall|i: int|
            from <= i < supported.len() ==> !same_but_case(#[trigger] supported[i], normal)),
    decreases supported.len() - from,
{
    if from < supported.len() && !same_but_case(supported[from], normal) {
        lemma_effort_place(supported, normal, from + 1);
    }
}

/// A model accepts exactly the efforts that it advertises, whatever the case of
/// their letters, and an accepted effort is kept as it is advertised.
pub proof fn law_efforts_are_those_advertised(
    supported: Seq<Seq<char>>,
    model: Seq<char>,
    effort: Seq<char>,
    normal: Seq<char>,
)
    ensures
        effort_choice(supported, model, effort, normal) is Ok <==> (exists|i: int|
            0 <= i < supported.len() && same_but_case(#[trigger] supported[i], normal)),
        effort_choice(supported, model, effort, normal) matches Ok(chosen) ==> supported.contains(
            chosen,
        ) && same_but_case(chosen, normal),
{
    lemma_effort_place(supported, normal, 0);
}

} // verus!
