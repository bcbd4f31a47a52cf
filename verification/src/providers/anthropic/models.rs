//! Anthropic: the models that the backend offers.

use crate::json::{json_views, Json, JsonView};
use crate::text::opt_text;
use vstd::prelude::*;

verus! {

/// A model that the backend offers.
#[derive(Clone, Debug, PartialEq, Eq)]
pub struct AnthropicModel {
    pub id: String,
    pub display_name: String,
    pub model_type: String,
    pub created_at: String,
}

/// The mathematical value of an [`AnthropicModel`].
pub struct AnthropicModelView {
    pub id: Seq<char>,
    pub display_name: Seq<char>,
    pub model_type: Seq<char>,
    pub created_at: Seq<char>,
}

impl View for AnthropicModel {
    type V = AnthropicModelView;

    open spec fn view(&self) -> AnthropicModelView {
        AnthropicModelView {
            id: self.id@,
            display_name: self.display_name@,
            model_type: self.model_type@,
            created_at: self.created_at@,
        }
    }
}

/// The model that `json` holds: an object with all four strings; the type
/// stands under `type`.
pub open spec fn model_of(json: JsonView) -> Option<AnthropicModelView> {
    match (
        json.text_at("id"@),
        json.text_at("display_name"@),
        json.text_at("type"@),
        json.text_at("created_at"@),
    ) {
        (Some(id), Some(display_name), Some(model_type), Some(created_at)) => Some(
            AnthropicModelView { id, display_name, model_type, created_at },
        ),
        _ => None,
    }
}

impl AnthropicModel {
    /// Reads a model from a JSON object. All four strings must be there.
    pub fn from_json(json: &Json) -> (model: Option<AnthropicModel>)
        ensures
            match model {
                Some(m) => model_of(json@) == Some(m@),
                None => model_of(json@) is None,
            },
    {
        match (
            json.text_at("id"),
            json.text_at("display_name"),
            json.text_at("type"),
            json.text_at("created_at"),
        ) {
            (Some(id), Some(display_name), Some(model_type), Some(created_at)) => Some(
                AnthropicModel { id, display_name, model_type, created_at },
            ),
            _ => None,
        }
    }
}

/// One page of the models that the backend offers.
#[derive(Clone, Debug, PartialEq, Eq)]
pub struct AnthropicModelsResponse {
    pub data: Vec<AnthropicModel>,
    pub has_more: bool,
    pub first_id: Option<String>,
    pub last_id: Option<String>,
}

/// The mathematical value of an [`AnthropicModelsResponse`].
pub struct AnthropicModelsView {
    pub data: Seq<AnthropicModelView>,
    pub has_more: bool,
    pub first_id: Option<Seq<char>>,
    pub last_id: Option<Seq<char>>,
}

/// The values of a sequence of models.
pub open spec fn model_views(models: Seq<AnthropicModel>) -> Seq<AnthropicModelView> {
    Seq::new(models.len(), |i: int| models[i]@)
}

impl View for AnthropicModelsResponse {
    type V = AnthropicModelsView;

    open spec fn view(&self) -> AnthropicModelsView {
        AnthropicModelsView {
            data: model_views(self.data@),
            has_more: self.has_more,
            first_id: opt_text(self.first_id),
            last_id: opt_text(self.last_id),
        }
    }
}

/// The models that the first `n` items hold, or `None` where one of them
/// holds none.
pub open spec fn models_of(items: Seq<JsonView>, n: int) -> Option<Seq<AnthropicModelView>>
    decreases n,
{
    if n <= 0 || n > items.len() {
        Some(Seq::empty())
    } else {
        match (models_of(items, n - 1), model_of(items[n - 1])) {
            (Some(rest), Some(model)) => Some(rest.push(model)),
            _ => None,
        }
    }
}

/// Once the first `n` items hold no list of models, no more of them do.
proof fn lemma_models_of_fails(items: Seq<JsonView>, n: int, m: int)
    requires
        0 < n <= m <= items.len(),
        models_of(items, n) is None,
    ensures
        models_of(items, m) is None,
    decreases m - n,
{
    if n < m {
        lemma_models_of_fails(items, n, m - 1);
    }
}

/// The page that `json` holds: an object with an array `data` of models
/// and a boolean `has_more`.
pub open spec fn page_of(json: JsonView) -> Option<AnthropicModelsView> {
    match (json.items_at("data"@), json.truth_at("has_more"@)) {
        (Some(items), Some(has_more)) => match models_of(items, items.len() as int) {
            Some(data) => Some(
                AnthropicModelsView {
                    data,
                    has_more,
                    first_id: json.text_at("first_id"@),
                    last_id: json.text_at("last_id"@),
                },
            ),
            None => None,
        },
        _ => None,
    }
}

impl AnthropicModelsResponse {
    /// Reads a page from a JSON object. Every item of `data` must be a
    /// model.
    pub fn from_json(json: &Json) -> (page: Option<AnthropicModelsResponse>)
        ensures
            match page {
                Some(p) => page_of(json@) == Some(p@),
                None => page_of(json@) is None,
            },
    {
        match (json.items_at("data"), json.truth_at("has_more")) {
            (Some(items), Some(has_more)) => {
                let ghost all = json_views(items@);
                let mut data: Vec<AnthropicModel> = Vec::new();
                let mut i: usize = 0;
                assert(model_views(data@) =~= Seq::<AnthropicModelView>::empty());
                while i < items.len()
                    invariant
                        i <= items.len(),
                        all == json_views(items@),
                        json@.items_at("data"@) == Some(all),
                        json@.truth_at("has_more"@) == Some(has_more),
                        models_of(all, i as int) == Some(model_views(data@)),
                    decreases items.len() - i,
                {
                    let ghost so_far = model_views(data@);
                    match AnthropicModel::from_json(&items[i]) {
                        Some(model) => {
                            let ghost value = model@;
                            data.push(model);
                            assert(model_views(data@) =~= so_far.push(value));
                        },
                        None => {
                            proof {
                                lemma_models_of_fails(all, i + 1, items.len() as int);
                            }
                            return None;
                        },
                    }
                    i = i + 1;
                }
                Some(
                    AnthropicModelsResponse {
                        data,
                        has_more,
                        first_id: json.text_at("first_id"),
                        last_id: json.text_at("last_id"),
                    },
                )
            },
            _ => None,
        }
    }
}

} // verus!
