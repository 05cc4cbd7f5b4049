//! Which of several providers serves a session.

use crate::keyed::text_views;
use crate::text::{eq_ignore_ascii_case, same_but_case, trim, trimmed};
use vstd::prelude::*;

verus! {

/// The provider that a session has selected.
#[derive(Clone, Copy, Debug, PartialEq, Eq, Structural)]
pub enum ActiveProvider {
    Claude,
    OpenAI,
    Copilot,
    Antigravity,
    Gemini,
    Cursor,
    Bedrock,
    OpenRouter,
}

/// Which runtimes are set up.
#[derive(Clone, Copy, Debug, PartialEq, Eq, Structural)]
pub struct ProviderSlots {
    pub claude: bool,
    pub anthropic: bool,
    pub openai: bool,
    pub copilot: bool,
    pub antigravity: bool,
    pub gemini: bool,
    pub cursor: bool,
    pub bedrock: bool,
    /// The runtime that requests for OpenRouter go through: a compatible profile
    /// where one is active, else OpenRouter itself.
    pub openrouter_execution: bool,
}

/// Whether a provider can serve requests.
pub open spec fn slot_available(slots: ProviderSlots, provider: ActiveProvider) -> bool {
    match provider {
        ActiveProvider::Claude => slots.anthropic || slots.claude,
        ActiveProvider::OpenAI => slots.openai,
        ActiveProvider::Copilot => slots.copilot,
        ActiveProvider::Antigravity => slots.antigravity,
        ActiveProvider::Gemini => slots.gemini,
        ActiveProvider::Cursor => slots.cursor,
        ActiveProvider::Bedrock => slots.bedrock,
        ActiveProvider::OpenRouter => slots.openrouter_execution,
    }
}

impl ProviderSlots {
    /// Whether any runtime for Anthropic's models is set up.
    pub fn has_claude_runtime(&self) -> (r: bool)
        ensures
            r == (self.anthropic || self.claude),
    {
        self.anthropic || self.claude
    }

    /// Whether a provider can serve requests.
    pub fn provider_slot_available(&self, provider: ActiveProvider) -> (r: bool)
        ensures
            r == slot_available(*self, provider),
    {
        match provider {
            ActiveProvider::Claude => self.has_claude_runtime(),
            ActiveProvider::OpenAI => self.openai,
            ActiveProvider::Copilot => self.copilot,
            ActiveProvider::Antigravity => self.antigravity,
            ActiveProvider::Gemini => self.gemini,
            ActiveProvider::Cursor => self.cursor,
            ActiveProvider::Bedrock => self.bedrock,
            ActiveProvider::OpenRouter => self.openrouter_execution,
        }
    }
}

/// Whether a provider can serve requests, where `after` is what a second look at
/// the credentials sets up. The second look is taken only where it is needed.
pub fn reconcile_auth_if_provider_missing(
    before: &ProviderSlots,
    after: &ProviderSlots,
    provider: ActiveProvider,
) -> (r: bool)
    ensures
        r == (slot_available(*before, provider) || slot_available(*after, provider)),
{
    before.provider_slot_available(provider) || after.provider_slot_available(provider)
}

/// Whether one of the texts reads like a model, but for white space around it
/// and the case of letters.
pub open spec fn names_model(listed: Seq<Seq<char>>, model: Seq<char>) -> bool {
    exists|i: int|
        0 <= i < listed.len() && same_but_case(trimmed(#[trigger] listed[i]), trimmed(model))
}

/// Whether a seat's catalog lists a model, for switching or on display.
pub open spec fn catalog_owns(
    switching: Seq<Seq<char>>,
    display: Seq<Seq<char>>,
    model: Seq<char>,
) -> bool {
    trimmed(model).len() > 0 && (names_model(switching, model) || names_model(display, model))
}

fn names(listed: &Vec<String>, model: &str) -> (r: bool)
    ensures
        r == names_model(text_views(listed@), model@),
{
    let name = trim(model);
    let ghost views = text_views(listed@);
    let mut i: usize = 0;
    while i < listed.len()
        invariant
            i <= listed@.len(),
            name@ == trimmed(model@),
            views == text_views(listed@),
            forall|k: int|
                0 <= k < i ==> !same_but_case(trimmed(#[trigger] views[k]), trimmed(model@)),
        decreases listed@.len() - i,
    {
        assert(views[i as int] == listed@[i as int]@);
        if eq_ignore_ascii_case(trim(listed[i].as_str()), name) {
            return true;
        }
        i = i + 1;
    }
    false
}

/// Whether a seat's catalog lists a model.
pub fn copilot_catalog_lists(switching: &Vec<String>, display: &Vec<String>, model: &str) -> (r: bool)
    ensures
        r == catalog_owns(text_views(switching@), text_views(display@), model@),
{
    if trim(model).is_empty() {
        return false;
    }
    names(switching, model) || names(display, model)
}

/// Whether an unprefixed model goes to Copilot: Copilot is active and set up,
/// and the seat's catalog lists the model. A seat serves models of other
/// families under their own names, so only its catalog can tell.
pub fn copilot_catalog_owns(
    active: ActiveProvider,
    slots: &ProviderSlots,
    switching: &Vec<String>,
    display: &Vec<String>,
    requested_model: &str,
) -> (r: bool)
    ensures
        r == (active is Copilot && slots.copilot && catalog_owns(
            text_views(switching@),
            text_views(display@),
            requested_model@,
        )),
{
    match active {
        ActiveProvider::Copilot => slots.copilot && copilot_catalog_lists(
            switching,
            display,
            requested_model,
        ),
        _ => false,
    }
}

/// A catalog that has not arrived yet claims nothing.
pub proof fn law_empty_catalog_claims_nothing(model: Seq<char>)
    ensures
        !catalog_owns(seq![], seq![], model),
{
}

/// Every model that is offered for switching is owned, however its letters are
/// cased.
pub proof fn law_offered_models_are_owned(
    switching: Seq<Seq<char>>,
    display: Seq<Seq<char>>,
    i: int,
    model: Seq<char>,
)
    requires
        0 <= i < switching.len(),
        trimmed(model).len() > 0,
        same_but_case(trimmed(switching[i]), trimmed(model)),
    ensures
        catalog_owns(switching, display, model),
{
    assert(same_but_case(trimmed(switching[i]), trimmed(model)));
}

} // verus!
