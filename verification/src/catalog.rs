//! The live catalog as requests read it: what each model can do.
//!
//! Copilot advertises for each model which wire protocol it serves and what its
//! token limits are.

use crate::copilot_catalog::{endpoint_among, CopilotEndpoint, CopilotModelInfo};
use crate::keyed::{
    copy_texts, keys_differ, lemma_entry_in_map, lemma_key_has_entry, map_of, text_views, TextMap,
};
use vstd::prelude::*;

verus! {

/// What the catalog says of one model.
#[derive(Debug)]
pub struct ModelSpec {
    /// The wire protocol for this model's requests.
    pub endpoint: CopilotEndpoint,
    /// The context window, when advertised.
    pub context_window: Option<usize>,
    /// The largest output, when advertised.
    pub max_output_tokens: Option<usize>,
    /// The reasoning efforts that this model takes, in the catalog's order.
    pub reasoning_efforts: Vec<String>,
    /// Whether the model takes images.
    pub supports_vision: bool,
    /// Whether the model calls tools.
    pub supports_tool_calls: bool,
}

/// The model of [`ModelSpec`].
pub struct SpecView {
    pub endpoint: CopilotEndpoint,
    pub context_window: Option<usize>,
    pub max_output_tokens: Option<usize>,
    pub reasoning_efforts: Seq<Seq<char>>,
    pub supports_vision: bool,
    pub supports_tool_calls: bool,
}

impl View for ModelSpec {
    type V = SpecView;

    open spec fn view(&self) -> SpecView {
        SpecView {
            endpoint: self.endpoint,
            context_window: self.context_window,
            max_output_tokens: self.max_output_tokens,
            reasoning_efforts: text_views(self.reasoning_efforts@),
            supports_vision: self.supports_vision,
            supports_tool_calls: self.supports_tool_calls,
        }
    }
}

/// What an entry of the catalog says of its model.
pub open spec fn spec_of(info: CopilotModelInfo) -> SpecView {
    SpecView {
        endpoint: endpoint_among(text_views(info.supported_endpoints@)),
        context_window: info.context_window(),
        max_output_tokens: info.output_cap(),
        reasoning_efforts: info.efforts(),
        supports_vision: info.takes_images(),
        supports_tool_calls: info.calls_tools() == Some(true),
    }
}

impl ModelSpec {
    /// What an entry of the catalog says of its model.
    pub fn from_info(info: &CopilotModelInfo) -> (r: ModelSpec)
        ensures
            r@ == spec_of(*info),
    {
        ModelSpec {
            endpoint: info.endpoint(),
            context_window: info.max_context_window_tokens(),
            max_output_tokens: info.max_output_tokens(),
            reasoning_efforts: info.reasoning_efforts(),
            supports_vision: info.supports_vision(),
            supports_tool_calls: match info.supports_tool_calls() {
                Some(calls) => calls,
                None => false,
            },
        }
    }
}

impl ModelSpec {
    /// A spec that says the same.
    pub fn copy(&self) -> (r: ModelSpec)
        ensures
            r@ == self@,
    {
        ModelSpec {
            endpoint: self.endpoint,
            context_window: self.context_window,
            max_output_tokens: self.max_output_tokens,
            reasoning_efforts: copy_texts(&self.reasoning_efforts),
            supports_vision: self.supports_vision,
            supports_tool_calls: self.supports_tool_calls,
        }
    }
}

/// What the catalog says, by model id.
#[derive(Debug)]
pub struct CatalogSpecs {
    specs: TextMap<ModelSpec>,
}

impl View for CatalogSpecs {
    type V = Map<Seq<char>, SpecView>;

    closed spec fn view(&self) -> Map<Seq<char>, SpecView> {
        spec_views(self.specs@)
    }
}

/// The models of the entries of a map.
pub open spec fn spec_views(specs: Map<Seq<char>, ModelSpec>) -> Map<Seq<char>, SpecView> {
    Map::new(|k: Seq<char>| specs.contains_key(k), |k: Seq<char>| specs[k]@)
}

/// What the first `n` entries say, by model; of two entries with one id the
/// later one counts.
pub open spec fn specs_of(models: Seq<CopilotModelInfo>, n: int) -> Map<Seq<char>, SpecView>
    decreases n,
{
    if n <= 0 {
        Map::empty()
    } else {
        specs_of(models, n - 1).insert(models[n - 1].id@, spec_of(models[n - 1]))
    }
}

impl Default for CatalogSpecs {
    fn default() -> (r: CatalogSpecs)
        ensures
            r@ == Map::<Seq<char>, SpecView>::empty(),
    {
        let r = CatalogSpecs { specs: TextMap::new() };
        assert(r@ =~= Map::<Seq<char>, SpecView>::empty());
        r
    }
}

/// The wire protocol for `model`: Chat Completions for one that the catalog has
/// not described.
pub open spec fn endpoint_in(specs: Map<Seq<char>, SpecView>, model: Seq<char>) -> CopilotEndpoint {
    if specs.contains_key(model) {
        specs[model].endpoint
    } else {
        CopilotEndpoint::ChatCompletions
    }
}

impl CatalogSpecs {
    /// What a fetched catalog says.
    pub fn from_models(models: &Vec<CopilotModelInfo>) -> (r: CatalogSpecs)
        ensures
            r@ == specs_of(models@, models@.len() as int),
    {
        let mut specs: TextMap<ModelSpec> = TextMap::new();
        let mut i: usize = 0;
        assert(spec_views(specs@) =~= Map::<Seq<char>, SpecView>::empty());
        while i < models.len()
            invariant
                i <= models@.len(),
                spec_views(specs@) == specs_of(models@, i as int),
            decreases models@.len() - i,
        {
            let ghost before = specs@;
            let spec = ModelSpec::from_info(&models[i]);
            specs.insert(models[i].id.clone(), spec);
            assert(spec_views(specs@) =~= spec_views(before).insert(models@[i as int].id@, spec@));
            i = i + 1;
        }
        CatalogSpecs { specs }
    }

    /// Puts down what is said of a model.
    pub fn insert(&mut self, id: String, spec: ModelSpec)
        ensures
            final(self)@ == old(self)@.insert(id@, spec@),
    {
        let ghost before = self@;
        let ghost key = id@;
        let ghost seen = spec@;
        self.specs.insert(id, spec);
        assert(self@ =~= before.insert(key, seen));
    }

    /// A catalog that says the same.
    pub fn copy(&self) -> (r: CatalogSpecs)
        ensures
            r@ == self@,
    {
        let entries = self.iter();
        let mut r = CatalogSpecs::default();
        let mut i: usize = 0;
        while i < entries.len()
            invariant
                i <= entries@.len(),
                keys_differ(entries@),
                self@ == spec_views(map_of(entries@)),
                forall|k: int|
                    0 <= k < i ==> r@.contains_key((#[trigger] entries@[k]).0@),
                forall|key: Seq<char>| #[trigger]
                    r@.contains_key(key) ==> self@.contains_key(key) && r@[key] == self@[key],
            decreases entries@.len() - i,
        {
            proof {
                lemma_entry_in_map(entries@, i as int);
            }
            r.insert(entries[i].0.clone(), entries[i].1.copy());
            i = i + 1;
        }
        proof {
            assert forall|key: Seq<char>| #[trigger] self@.contains_key(key) implies r@.contains_key(
                key,
            ) by {
                lemma_key_has_entry(entries@, key);
            }
            assert(r@ =~= self@);
        }
        r
    }

    /// Everything that the catalog says: each model once.
    pub fn iter(&self) -> (r: &Vec<(String, ModelSpec)>)
        ensures
            keys_differ(r@),
            self@ == spec_views(map_of(r@)),
    {
        self.specs.entries()
    }

    /// Whether the catalog says nothing.
    pub fn is_empty(&self) -> (r: bool)
        ensures
            r == (self@ == Map::<Seq<char>, SpecView>::empty()),
    {
        let r = self.specs.is_empty();
        proof {
            if r {
                assert(self@ =~= Map::<Seq<char>, SpecView>::empty());
            } else if self@ == Map::<Seq<char>, SpecView>::empty() {
                assert forall|k: Seq<char>| !(#[trigger] self.specs@.contains_key(k)) by {
                    assert(self@.contains_key(k) == self.specs@.contains_key(k));
                }
                assert(self.specs@ =~= Map::<Seq<char>, ModelSpec>::empty());
            }
        }
        r
    }

    /// What the catalog says of `model`.
    pub fn get(&self, model: &str) -> (r: Option<&ModelSpec>)
        ensures
            (match r {
                Some(spec) => self@.contains_key(model@) && self@[model@] == spec@,
                None => !self@.contains_key(model@),
            }),
    {
        self.specs.get(model)
    }

    /// Drops what is believed of `model`, so that the next lookup asks again;
    /// says whether there was anything. For a model whose endpoint Copilot has
    /// rejected: what is believed is not missing but stale.
    pub fn forget(&mut self, model: &str) -> (r: bool)
        ensures
            final(self)@ == old(self)@.remove(model@),
            r == old(self)@.contains_key(model@),
    {
        let gone = self.specs.remove(model).is_some();
        assert(self@ =~= old(self)@.remove(model@));
        gone
    }

    /// The wire protocol for `model`.
    pub fn endpoint_for(&self, model: &str) -> (r: CopilotEndpoint)
        ensures
            r == endpoint_in(self@, model@),
    {
        match self.get(model) {
            Some(spec) => spec.endpoint,
            None => CopilotEndpoint::ChatCompletions,
        }
    }

    /// The context window of `model`, where known.
    pub fn context_window_for(&self, model: &str) -> (r: Option<usize>)
        ensures
            r == (if self@.contains_key(model@) {
                self@[model@].context_window
            } else {
                None
            }),
    {
        match self.get(model) {
            Some(spec) => spec.context_window,
            None => None,
        }
    }

    /// The largest output of `model`, where known.
    pub fn max_output_tokens_for(&self, model: &str) -> (r: Option<usize>)
        ensures
            r == (if self@.contains_key(model@) {
                self@[model@].max_output_tokens
            } else {
                None
            }),
    {
        match self.get(model) {
            Some(spec) => spec.max_output_tokens,
            None => None,
        }
    }

    /// The reasoning efforts that `model` takes; none where the catalog has not
    /// described it.
    pub fn reasoning_efforts_for(&self, model: &str) -> (r: Vec<String>)
        ensures
            text_views(r@) == (if self@.contains_key(model@) {
                self@[model@].reasoning_efforts
            } else {
                seq![]
            }),
    {
        match self.get(model) {
            Some(spec) => copy_texts(&spec.reasoning_efforts),
            None => {
                let empty: Vec<String> = Vec::new();
                assert(text_views(empty@) =~= seq![]);
                empty
            },
        }
    }

    /// Whether `model` takes images, as far as is known.
    pub fn supports_vision(&self, model: &str) -> (r: bool)
        ensures
            r == (self@.contains_key(model@) && self@[model@].supports_vision),
    {
        match self.get(model) {
            Some(spec) => spec.supports_vision,
            None => false,
        }
    }
}

/// A model that has been forgotten goes over Chat Completions until the catalog
/// describes it again, and no other model's endpoint changes.
pub proof fn law_forgotten_model_falls_back(
    specs: Map<Seq<char>, SpecView>,
    model: Seq<char>,
    other: Seq<char>,
)
    requires
        other != model,
    ensures
        endpoint_in(specs.remove(model), model) == CopilotEndpoint::ChatCompletions,
        endpoint_in(specs.remove(model), other) == endpoint_in(specs, other),
{
}

} // verus!
