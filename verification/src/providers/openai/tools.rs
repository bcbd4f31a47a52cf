//! OpenAI: the tools, the limits and the models of a request.

use crate::fallback::{tool_views, ToolView};
use crate::json::{field_views, fld, json_views, Field, FieldView, Json, JsonView};
use crate::text::{contains, str_eq};
use crate::types::Tool;
use vstd::prelude::*;

verus! {

/// The function of a tool as a request carries it.
#[derive(Clone, Debug, PartialEq, Eq)]
pub struct OpenAIToolFunction {
    pub name: String,
    pub description: String,
    pub parameters: Json,
}

/// A tool as a request carries it.
#[derive(Clone, Debug, PartialEq, Eq)]
pub struct OpenAITool {
    pub tool_type: String,
    pub function: OpenAIToolFunction,
}

/// The mathematical value of an [`OpenAITool`].
pub struct OpenAIToolView {
    pub tool_type: Seq<char>,
    pub name: Seq<char>,
    pub description: Seq<char>,
    pub parameters: JsonView,
}

impl View for OpenAITool {
    type V = OpenAIToolView;

    open spec fn view(&self) -> OpenAIToolView {
        OpenAIToolView {
            tool_type: self.tool_type@,
            name: self.function.name@,
            description: self.function.description@,
            parameters: self.function.parameters@,
        }
    }
}

/// The values of a sequence of wire tools.
pub open spec fn wire_tool_views(tools: Seq<OpenAITool>) -> Seq<OpenAIToolView> {
    Seq::new(tools.len(), |i: int| tools[i]@)
}

/// Those of the first `n` fields that are not named `name`.
pub open spec fn fields_without(fields: Seq<FieldView>, name: Seq<char>, n: int) -> Seq<FieldView>
    decreases n,
{
    if n <= 0 || n > fields.len() {
        Seq::empty()
    } else if fields[n - 1].name == name {
        fields_without(fields, name, n - 1)
    } else {
        fields_without(fields, name, n - 1).push(fields[n - 1])
    }
}

/// The schema of a tool's parameters as a request carries it: an object is
/// closed to properties that it does not name; anything else stays.
pub open spec fn closed_schema(parameters: JsonView) -> JsonView {
    match parameters {
        JsonView::Object(fields) => JsonView::Object(
            fields_without(fields, "additionalProperties"@, fields.len() as int).push(
                fld("additionalProperties"@, JsonView::Bool(false)),
            ),
        ),
        _ => parameters,
    }
}

/// Closes the schema of a tool's parameters.
pub fn close_schema(parameters: &Json) -> (closed: Json)
    ensures
        closed@ == closed_schema(parameters@),
{
    match parameters {
        Json::Object(fields) => {
            let ghost model = field_views(fields@);
            assert(parameters@->Object_0 =~= model);
            let mut kept: Vec<Field> = Vec::new();
            let mut i: usize = 0;
            assert(field_views(kept@) =~= fields_without(model, "additionalProperties"@, 0));
            while i < fields.len()
                invariant
                    i <= fields.len(),
                    model == field_views(fields@),
                    field_views(kept@) == fields_without(
                        model,
                        "additionalProperties"@,
                        i as int,
                    ),
                decreases fields.len() - i,
            {
                let ghost so_far = field_views(kept@);
                if !str_eq(fields[i].name.as_str(), "additionalProperties") {
                    let copy = Field {
                        name: fields[i].name.clone(),
                        value: fields[i].value.duplicate(),
                    };
                    kept.push(copy);
                    assert(field_views(kept@) =~= so_far.push(model[i as int]));
                }
                i = i + 1;
            }
            let ghost filtered = field_views(kept@);
            kept.push(Field::new("additionalProperties", Json::Bool(false)));
            assert(field_views(kept@) =~= filtered.push(
                fld("additionalProperties"@, JsonView::Bool(false)),
            ));
            Json::object(kept)
        },
        _ => parameters.duplicate(),
    }
}

/// A tool as a request carries it.
pub open spec fn wire_tool(tool: ToolView) -> OpenAIToolView {
    OpenAIToolView {
        tool_type: "function"@,
        name: tool.name,
        description: tool.description,
        parameters: closed_schema(tool.parameters),
    }
}

/// The first `n` tools as a request carries them.
pub open spec fn wire_tools(tools: Seq<ToolView>, n: int) -> Seq<OpenAIToolView>
    decreases n,
{
    if n <= 0 || n > tools.len() {
        Seq::empty()
    } else {
        wire_tools(tools, n - 1).push(wire_tool(tools[n - 1]))
    }
}

/// Converts a tool into the form of a request.
pub fn convert_tool(tool: &Tool) -> (wire: OpenAITool)
    ensures
        wire@ == wire_tool(tool@),
{
    OpenAITool {
        tool_type: "function".to_owned(),
        function: OpenAIToolFunction {
            name: tool.name.clone(),
            description: tool.description.clone(),
            parameters: close_schema(&tool.parameters),
        },
    }
}

/// Converts the tools of a client into the form of a request.
pub fn convert_tools(tools: &[Tool]) -> (wire: Vec<OpenAITool>)
    ensures
        wire_tool_views(wire@) == wire_tools(tool_views(tools@), tools@.len() as int),
{
    let ghost model = tool_views(tools@);
    let mut wire: Vec<OpenAITool> = Vec::new();
    let mut i: usize = 0;
    assert(wire_tool_views(wire@) =~= wire_tools(model, 0));
    while i < tools.len()
        invariant
            i <= tools.len(),
            model == tool_views(tools@),
            wire_tool_views(wire@) == wire_tools(model, i as int),
        decreases tools.len() - i,
    {
        let ghost so_far = wire_tool_views(wire@);
        let converted = convert_tool(&tools[i]);
        wire.push(converted);
        assert(wire_tool_views(wire@) =~= so_far.push(converted@));
        i = i + 1;
    }
    wire
}

/// Whether a request asks the backend to report token counts in the
/// stream.
#[derive(Clone, Copy, Debug, PartialEq, Eq, Structural)]
pub struct OpenAIStreamOptions {
    pub include_usage: bool,
}

/// The two ways in which a request limits the tokens of the answer; a
/// model takes one of them.
#[derive(Clone, Copy, Debug, PartialEq, Eq, Structural)]
pub struct TokenLimits {
    pub max_tokens: Option<u32>,
    pub max_completion_tokens: Option<u32>,
}

/// Whether a model takes its limit as `max_completion_tokens`: the models
/// whose name holds `o1` or `gpt-5`.
pub open spec fn takes_completion_limit(model: Seq<char>) -> bool {
    crate::scan::find_first(model, "o1"@) is Some || crate::scan::find_first(model, "gpt-5"@)
        is Some
}

/// The limits of a request to `model`: 4096 tokens, under the name that
/// the model takes.
pub fn token_limits(model: &str) -> (limits: TokenLimits)
    ensures
        limits == if takes_completion_limit(model@) {
            TokenLimits { max_tokens: None, max_completion_tokens: Some(4096u32) }
        } else {
            TokenLimits { max_tokens: Some(4096u32), max_completion_tokens: None }
        },
{
    if contains(model, "o1") || contains(model, "gpt-5") {
        TokenLimits { max_tokens: None, max_completion_tokens: Some(4096) }
    } else {
        TokenLimits { max_tokens: Some(4096), max_completion_tokens: None }
    }
}

/// A model that the backend offers.
#[derive(Clone, Debug, PartialEq, Eq)]
pub struct OpenAIModel {
    pub id: String,
    pub object: String,
    pub created: u64,
    pub owned_by: String,
}

/// The mathematical value of an [`OpenAIModel`].
pub struct OpenAIModelView {
    pub id: Seq<char>,
    pub object: Seq<char>,
    pub created: u64,
    pub owned_by: Seq<char>,
}

impl View for OpenAIModel {
    type V = OpenAIModelView;

    open spec fn view(&self) -> OpenAIModelView {
        OpenAIModelView {
            id: self.id@,
            object: self.object@,
            created: self.created,
            owned_by: self.owned_by@,
        }
    }
}

/// The model that `json` holds: an object with all four fields.
pub open spec fn model_of(json: JsonView) -> Option<OpenAIModelView> {
    match (
        json.text_at("id"@),
        json.text_at("object"@),
        json.number_at("created"@),
        json.text_at("owned_by"@),
    ) {
        (Some(id), Some(object), Some(created), Some(owned_by)) => Some(
            OpenAIModelView { id, object, created, owned_by },
        ),
        _ => None,
    }
}

impl OpenAIModel {
    /// Reads a model from a JSON object. All four fields must be there.
    pub fn from_json(json: &Json) -> (model: Option<OpenAIModel>)
        ensures
            match model {
                Some(m) => model_of(json@) == Some(m@),
                None => model_of(json@) is None,
            },
    {
        match (
            json.text_at("id"),
            json.text_at("object"),
            json.number_at("created"),
            json.text_at("owned_by"),
        ) {
            (Some(id), Some(object), Some(created), Some(owned_by)) => Some(
                OpenAIModel { id, object, created, owned_by },
            ),
            _ => None,
        }
    }
}

/// The answer to a request for the models that the backend offers.
#[derive(Clone, Debug, PartialEq, Eq)]
pub struct OpenAIModelsResponse {
    pub object: String,
    pub data: Vec<OpenAIModel>,
}

/// The values of a sequence of models.
pub open spec fn model_views(models: Seq<OpenAIModel>) -> Seq<OpenAIModelView> {
    Seq::new(models.len(), |i: int| models[i]@)
}

/// The models that the first `n` items hold, or `None` where one of them
/// holds none.
pub open spec fn models_of(items: Seq<JsonView>, n: int) -> Option<Seq<OpenAIModelView>>
    decreases n,
{
    if n <= 0 || n > items.len() {
        Some(Seq::empty())
    } else {
        match (models_of(items, n - 1), model_of(items[n - 1])) {
            (Some(rest), Some(model)) => Some(rest.push(model)),
            _ => None,
        }
    }
}

/// Once the first `n` items hold no list of models, no more of them do.
proof fn lemma_models_of_fails(items: Seq<JsonView>, n: int, m: int)
    requires
        0 < n <= m <= items.len(),
        models_of(items, n) is None,
    ensures
        models_of(items, m) is None,
    decreases m - n,
{
    if n < m {
        lemma_models_of_fails(items, n, m - 1);
    }
}

/// The models of the list that `json` holds: an object with a string
/// `object` and an array `data` of models.
pub open spec fn list_of(json: JsonView) -> Option<Seq<OpenAIModelView>> {
    match (json.text_at("object"@), json.items_at("data"@)) {
        (Some(_), Some(items)) => models_of(items, items.len() as int),
        _ => None,
    }
}

impl OpenAIModelsResponse {
    /// Reads the list from a JSON object. Every item of `data` must be a
    /// model.
    pub fn from_json(json: &Json) -> (list: Option<OpenAIModelsResponse>)
        ensures
            match list {
                Some(l) => list_of(json@) == Some(model_views(l.data@)) && json@.text_at(
                    "object"@,
                ) == Some(l.object@),
                None => list_of(json@) is None,
            },
    {
        match (json.text_at("object"), json.items_at("data")) {
            (Some(object), Some(items)) => {
                let ghost all = json_views(items@);
                let mut data: Vec<OpenAIModel> = Vec::new();
                let mut i: usize = 0;
                assert(model_views(data@) =~= Seq::<OpenAIModelView>::empty());
                while i < items.len()
                    invariant
                        i <= items.len(),
                        all == json_views(items@),
                        json@.items_at("data"@) == Some(all),
                        json@.text_at("object"@) == Some(object@),
                        models_of(all, i as int) == Some(model_views(data@)),
                    decreases items.len() - i,
                {
                    let ghost so_far = model_views(data@);
                    match OpenAIModel::from_json(&items[i]) {
                        Some(model) => {
                            let ghost value = model@;
                            data.push(model);
                            assert(model_views(data@) =~= so_far.push(value));
                        },
                        None => {
                            proof {
                                lemma_models_of_fails(all, i + 1, items.len() as int);
                            }
                            return None;
                        },
                    }
                    i = i + 1;
                }
                Some(OpenAIModelsResponse { object, data })
            },
            _ => None,
        }
    }
}

} // verus!
