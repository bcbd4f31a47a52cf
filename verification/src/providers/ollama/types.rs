//! What Ollama tells about the models that it holds.

use crate::json::{json_views, Json, JsonView};
use crate::types::ModelInfo;
use vstd::prelude::*;

verus! {

/// A model that the server holds.
#[derive(Clone, Debug, PartialEq, Eq)]
pub struct Model {
    pub name: String,
    pub modified_at: String,
    pub size: u64,
    pub digest: String,
}

/// The mathematical value of a [`Model`].
pub struct ModelView {
    pub name: Seq<char>,
    pub modified_at: Seq<char>,
    pub size: u64,
    pub digest: Seq<char>,
}

impl View for Model {
    type V = ModelView;

    open spec fn view(&self) -> ModelView {
        ModelView {
            name: self.name@,
            modified_at: self.modified_at@,
            size: self.size,
            digest: self.digest@,
        }
    }
}

/// The model that `json` holds: an object with all four fields.
pub open spec fn model_of(json: JsonView) -> Option<ModelView> {
    match (
        json.text_at("name"@),
        json.text_at("modified_at"@),
        json.number_at("size"@),
        json.text_at("digest"@),
    ) {
        (Some(name), Some(modified_at), Some(size), Some(digest)) => Some(
            ModelView { name, modified_at, size, digest },
        ),
        _ => None,
    }
}

impl Model {
    /// Reads a model from a JSON object. All four fields must be there.
    pub fn from_json(json: &Json) -> (model: Option<Model>)
        ensures
            match model {
                Some(m) => model_of(json@) == Some(m@),
                None => model_of(json@) is None,
            },
    {
        match (
            json.text_at("name"),
            json.text_at("modified_at"),
            json.number_at("size"),
            json.text_at("digest"),
        ) {
            (Some(name), Some(modified_at), Some(size), Some(digest)) => Some(
                Model { name, modified_at, size, digest },
            ),
            _ => None,
        }
    }
}

/// The answer to a request for the models that the server holds.
#[derive(Clone, Debug, PartialEq, Eq)]
pub struct ListModelsResponse {
    pub models: Vec<Model>,
}

/// The values of a sequence of models.
pub open spec fn model_views(models: Seq<Model>) -> Seq<ModelView> {
    Seq::new(models.len(), |i: int| models[i]@)
}

/// The models that the first `n` items hold, or `None` where one of them
/// holds none.
pub open spec fn models_of(items: Seq<JsonView>, n: int) -> Option<Seq<ModelView>>
    decreases n,
{
    if n <= 0 || n > items.len() {
        Some(Seq::empty())
    } else {
        match (models_of(items, n - 1), model_of(items[n - 1])) {
            (Some(rest), Some(model)) => Some(rest.push(model)),
            _ => None,
        }
    }
}

/// The list that `json` holds: an object whose field `models` is an array
/// of models.
pub open spec fn list_of(json: JsonView) -> Option<Seq<ModelView>> {
    match json.items_at("models"@) {
        Some(items) => models_of(items, items.len() as int),
        None => None,
    }
}

impl ListModelsResponse {
    /// Reads the list from a JSON object. Every item of `models` must be a
    /// model.
    pub fn from_json(json: &Json) -> (list: Option<ListModelsResponse>)
        ensures
            match list {
                Some(l) => list_of(json@) == Some(model_views(l.models@)),
                None => list_of(json@) is None,
            },
    {
        match json.items_at("models") {
            Some(items) => {
                let ghost all = json_views(items@);
                let mut models: Vec<Model> = Vec::new();
                let mut i: usize = 0;
                assert(model_views(models@) =~= Seq::<ModelView>::empty());
                while i < items.len()
                    invariant
                        i <= items.len(),
                        all == json_views(items@),
                        json@.items_at("models"@) == Some(all),
                        models_of(all, i as int) == Some(model_views(models@)),
                    decreases items.len() - i,
                {
                    let ghost so_far = model_views(models@);
                    match Model::from_json(&items[i]) {
                        Some(model) => {
                            let ghost value = model@;
                            models.push(model);
                            assert(model_views(models@) =~= so_far.push(value));
                        },
                        None => {
                            proof {
                                lemma_models_of_fails(all, i + 1, items.len() as int);
                            }
                            return None;
                        },
                    }
                    i = i + 1;
                }
                Some(ListModelsResponse { models })
            },
            None => None,
        }
    }
}

/// Once the first `n` items hold no list of models, no more of them do.
proof fn lemma_models_of_fails(items: Seq<JsonView>, n: int, m: int)
    requires
        0 < n <= m <= items.len(),
        models_of(items, n) is None,
    ensures
        models_of(items, m) is None,
    decreases m - n,
{
    if n < m {
        lemma_models_of_fails(items, n, m - 1);
    }
}

/// The mathematical value of a [`ModelInfo`].
pub struct ModelInfoView {
    pub license: Seq<char>,
    pub modelfile: Seq<char>,
    pub parameters: Seq<char>,
    pub template: Seq<char>,
}

impl View for ModelInfo {
    type V = ModelInfoView;

    open spec fn view(&self) -> ModelInfoView {
        ModelInfoView {
            license: self.license@,
            modelfile: self.modelfile@,
            parameters: self.parameters@,
            template: self.template@,
        }
    }
}

/// The model information that `json` holds: an object with all four
/// strings.
pub open spec fn model_info_of(json: JsonView) -> Option<ModelInfoView> {
    match (
        json.text_at("license"@),
        json.text_at("modelfile"@),
        json.text_at("parameters"@),
        json.text_at("template"@),
    ) {
        (Some(license), Some(modelfile), Some(parameters), Some(template)) => Some(
            ModelInfoView { license, modelfile, parameters, template },
        ),
        _ => None,
    }
}

/// Reads the information about a model from a JSON object. All four
/// strings must be there.
pub fn read_model_info(json: &Json) -> (info: Option<ModelInfo>)
    ensures
        match info {
            Some(i) => model_info_of(json@) == Some(i@),
            None => model_info_of(json@) is None,
        },
{
    match (
        json.text_at("license"),
        json.text_at("modelfile"),
        json.text_at("parameters"),
        json.text_at("template"),
    ) {
        (Some(license), Some(modelfile), Some(parameters), Some(template)) => Some(
            ModelInfo { license, modelfile, parameters, template },
        ),
        _ => None,
    }
}

} // verus!
