//! OpenRouter: the models that the backend offers.

use crate::json::{json_views, Json, JsonView};
use crate::text::{str_eq, texts};
use vstd::prelude::*;
use vstd::string::StringExecFns;

verus! {

/// A model that the backend offers.
#[derive(Clone, Debug, PartialEq, Eq)]
pub struct OpenRouterModel {
    pub id: String,
    pub name: String,
    /// The parameters of a request that the model takes.
    pub supported_parameters: Option<Vec<String>>,
}

/// The mathematical value of an [`OpenRouterModel`].
pub struct OpenRouterModelView {
    pub id: Seq<char>,
    pub name: Seq<char>,
    pub supported_parameters: Option<Seq<Seq<char>>>,
}

impl View for OpenRouterModel {
    type V = OpenRouterModelView;

    open spec fn view(&self) -> OpenRouterModelView {
        OpenRouterModelView {
            id: self.id@,
            name: self.name@,
            supported_parameters: match self.supported_parameters {
                Some(v) => Some(texts(v@)),
                None => None,
            },
        }
    }
}

/// The strings among the first `n` items, in order.
pub open spec fn strings_of(items: Seq<JsonView>, n: int) -> Seq<Seq<char>>
    decreases n,
{
    if n <= 0 || n > items.len() {
        Seq::empty()
    } else {
        match items[n - 1].text() {
            Some(text) => strings_of(items, n - 1).push(text),
            None => strings_of(items, n - 1),
        }
    }
}

/// The model that `json` holds: an object with the strings `id` and
/// `name`. Of `supported_parameters` the strings count.
pub open spec fn model_of(json: JsonView) -> Option<OpenRouterModelView> {
    match (json.text_at("id"@), json.text_at("name"@)) {
        (Some(id), Some(name)) => Some(
            OpenRouterModelView {
                id,
                name,
                supported_parameters: match json.items_at("supported_parameters"@) {
                    Some(items) => Some(strings_of(items, items.len() as int)),
                    None => None,
                },
            },
        ),
        _ => None,
    }
}

/// The strings among the items of an array.
fn read_strings(items: &Vec<Json>) -> (strings: Vec<String>)
    ensures
        texts(strings@) == strings_of(json_views(items@), items@.len() as int),
{
    let ghost all = json_views(items@);
    let mut strings: Vec<String> = Vec::new();
    let mut i: usize = 0;
    assert(texts(strings@) =~= strings_of(all, 0));
    while i < items.len()
        invariant
            i <= items.len(),
            all == json_views(items@),
            texts(strings@) == strings_of(all, i as int),
        decreases items.len() - i,
    {
        let ghost so_far = texts(strings@);
        match items[i].as_str() {
            Some(s) => {
                strings.push(String::from_str(s));
                assert(texts(strings@) =~= so_far.push(s@));
            },
            None => {},
        }
        i = i + 1;
    }
    strings
}

impl OpenRouterModel {
    /// Reads a model from a JSON object. The id and the name must be
    /// there.
    pub fn from_json(json: &Json) -> (model: Option<OpenRouterModel>)
        ensures
            match model {
                Some(m) => model_of(json@) == Some(m@),
                None => model_of(json@) is None,
            },
    {
        match (json.text_at("id"), json.text_at("name")) {
            (Some(id), Some(name)) => Some(
                OpenRouterModel {
                    id,
                    name,
                    supported_parameters: match json.items_at("supported_parameters") {
                        Some(items) => Some(read_strings(items)),
                        None => None,
                    },
                },
            ),
            _ => None,
        }
    }

    /// Whether the model takes tools: its supported parameters list
    /// `tools`.
    pub fn takes_tools(&self) -> (yes: bool)
        ensures
            yes == match self@.supported_parameters {
                Some(names) => names.contains("tools"@),
                None => false,
            },
    {
        match &self.supported_parameters {
            Some(names) => {
                let mut i: usize = 0;
                while i < names.len()
                    invariant
                        i <= names.len(),
                        self@.supported_parameters == Some(texts(names@)),
                        forall|j: int| 0 <= j < i ==> texts(names@)[j] != "tools"@,
                    decreases names.len() - i,
                {
                    if str_eq(names[i].as_str(), "tools") {
                        assert(texts(names@)[i as int] == "tools"@);
                        return true;
                    }
                    i = i + 1;
                }
                false
            },
            None => false,
        }
    }
}

/// The answer to a request for the models that the backend offers.
#[derive(Clone, Debug, PartialEq, Eq)]
pub struct OpenRouterModelsResponse {
    pub data: Vec<OpenRouterModel>,
}

/// The values of a sequence of models.
pub open spec fn model_views(models: Seq<OpenRouterModel>) -> Seq<OpenRouterModelView> {
    Seq::new(models.len(), |i: int| models[i]@)
}

/// The models that the first `n` items hold, or `None` where one of them
/// holds none.
pub open spec fn models_of(items: Seq<JsonView>, n: int) -> Option<Seq<OpenRouterModelView>>
    decreases n,
{
    if n <= 0 || n > items.len() {
        Some(Seq::empty())
    } else {
        match (models_of(items, n - 1), model_of(items[n - 1])) {
            (Some(rest), Some(model)) => Some(rest.push(model)),
            _ => None,
        }
    }
}

/// Once the first `n` items hold no list of models, no more of them do.
proof fn lemma_models_of_fails(items: Seq<JsonView>, n: int, m: int)
    requires
        0 < n <= m <= items.len(),
        models_of(items, n) is None,
    ensures
        models_of(items, m) is None,
    decreases m - n,
{
    if n < m {
        lemma_models_of_fails(items, n, m - 1);
    }
}

/// The list that `json` holds: an object whose field `data` is an array of
/// models.
pub open spec fn list_of(json: JsonView) -> Option<Seq<OpenRouterModelView>> {
    match json.items_at("data"@) {
        Some(items) => models_of(items, items.len() as int),
        None => None,
    }
}

impl OpenRouterModelsResponse {
    /// Reads the list from a JSON object. Every item of `data` must be a
    /// model.
    pub fn from_json(json: &Json) -> (list: Option<OpenRouterModelsResponse>)
        ensures
            match list {
                Some(l) => list_of(json@) == Some(model_views(l.data@)),
                None => list_of(json@) is None,
            },
    {
        match json.items_at("data") {
            Some(items) => {
                let ghost all = json_views(items@);
                let mut data: Vec<OpenRouterModel> = Vec::new();
                let mut i: usize = 0;
                assert(model_views(data@) =~= Seq::<OpenRouterModelView>::empty());
                while i < items.len()
                    invariant
                        i <= items.len(),
                        all == json_views(items@),
                        json@.items_at("data"@) == Some(all),
                        models_of(all, i as int) == Some(model_views(data@)),
                    decreases items.len() - i,
                {
                    let ghost so_far = model_views(data@);
                    match OpenRouterModel::from_json(&items[i]) {
                        Some(model) => {
                            let ghost value = model@;
                            data.push(model);
                            assert(model_views(data@) =~= so_far.push(value));
                        },
                        None => {
                            proof {
                                lemma_models_of_fails(all, i + 1, items.len() as int);
                            }
                            return None;
                        },
                    }
                    i = i + 1;
                }
                Some(OpenRouterModelsResponse { data })
            },
            None => None,
        }
    }
}

} // verus!
