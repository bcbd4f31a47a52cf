//! OpenRouter: the parts of a message's content.

use crate::json::{field_views, fld, json_views, Field, FieldView, Json, JsonView};
use crate::providers::openai::messages::{content_parts, image_part, image_parts, text_part};
use crate::text::{opt_text, texts};
use vstd::prelude::*;
use vstd::string::StringExecFns;

verus! {

/// Where an image is found.
#[derive(Clone, Debug, PartialEq, Eq)]
pub struct OpenRouterImageUrl {
    pub url: String,
    pub detail: Option<String>,
}

/// One part of the content of a message: text or an image.
#[derive(Clone, Debug, PartialEq, Eq)]
pub struct OpenRouterContentItem {
    pub content_type: String,
    pub text: Option<String>,
    pub image_url: Option<OpenRouterImageUrl>,
}

/// The mathematical value of an [`OpenRouterContentItem`].
pub struct ContentItemView {
    pub content_type: Seq<char>,
    pub text: Option<Seq<char>>,
    pub url: Option<Seq<char>>,
    pub detail: Option<Seq<char>>,
}

impl View for OpenRouterContentItem {
    type V = ContentItemView;

    open spec fn view(&self) -> ContentItemView {
        ContentItemView {
            content_type: self.content_type@,
            text: opt_text(self.text),
            url: match self.image_url {
                Some(image) => Some(image.url@),
                None => None,
            },
            detail: match self.image_url {
                Some(image) => opt_text(image.detail),
                None => None,
            },
        }
    }
}

/// The field named `name` that holds `text`, or nothing where there is no
/// text.
pub open spec fn optional_field(name: Seq<char>, text: Option<Seq<char>>) -> Seq<FieldView> {
    match text {
        Some(t) => seq![fld(name, JsonView::Str(t))],
        None => Seq::empty(),
    }
}

/// The fields of the JSON object of a part: its type, then its text and
/// its image where it has them.
pub open spec fn item_fields(item: ContentItemView) -> Seq<FieldView> {
    seq![fld("type"@, JsonView::Str(item.content_type))] + optional_field("text"@, item.text)
        + (match item.url {
        Some(url) => seq![
            fld(
                "image_url"@,
                JsonView::Object(
                    seq![fld("url"@, JsonView::Str(url))] + optional_field("detail"@, item.detail),
                ),
            ),
        ],
        None => Seq::empty(),
    })
}

/// Appends the field named `name` that holds `text`, where there is text.
fn push_optional(fields: &mut Vec<Field>, name: &str, text: &Option<String>)
    ensures
        field_views(final(fields)@) == field_views(old(fields)@) + optional_field(
            name@,
            opt_text(*text),
        ),
{
    let ghost before = field_views(fields@);
    match text {
        Some(t) => {
            fields.push(Field::new(name, Json::Str(t.clone())));
        },
        None => {},
    }
    assert(field_views(fields@) =~= before + optional_field(name@, opt_text(*text)));
}

impl OpenRouterContentItem {
    /// The part that carries `text`.
    pub fn text(text: &str) -> (item: OpenRouterContentItem)
        ensures
            item@ == (ContentItemView {
                content_type: "text"@,
                text: Some(text@),
                url: None,
                detail: None,
            }),
            JsonView::Object(item_fields(item@)) == text_part(text@),
    {
        let item = OpenRouterContentItem {
            content_type: String::from_str("text"),
            text: Some(String::from_str(text)),
            image_url: None,
        };
        assert(item_fields(item@) =~= seq![
            fld("type"@, JsonView::Str("text"@)),
            fld("text"@, JsonView::Str(text@)),
        ]);
        item
    }

    /// The part that carries an image, given as base64 text, in a data
    /// URL.
    pub fn image(data: &str) -> (item: OpenRouterContentItem)
        ensures
            item@ == (ContentItemView {
                content_type: "image_url"@,
                text: None,
                url: Some("data:image/jpeg;base64,"@ + data@),
                detail: None,
            }),
            JsonView::Object(item_fields(item@)) == image_part(data@),
    {
        let mut url = String::from_str("data:image/jpeg;base64,");
        url.append(data);
        let item = OpenRouterContentItem {
            content_type: String::from_str("image_url"),
            text: None,
            image_url: Some(OpenRouterImageUrl { url, detail: None }),
        };
        assert(seq![fld("url"@, JsonView::Str("data:image/jpeg;base64,"@ + data@))]
            + optional_field("detail"@, None) =~= seq![
            fld("url"@, JsonView::Str("data:image/jpeg;base64,"@ + data@)),
        ]);
        assert(item_fields(item@) =~= seq![
            fld("type"@, JsonView::Str("image_url"@)),
            fld(
                "image_url"@,
                JsonView::Object(
                    seq![fld("url"@, JsonView::Str("data:image/jpeg;base64,"@ + data@))],
                ),
            ),
        ]);
        item
    }

    /// The part as the JSON object that a request carries.
    pub fn to_json(&self) -> (json: Json)
        ensures
            json@ == JsonView::Object(item_fields(self@)),
    {
        let mut fields: Vec<Field> = Vec::new();
        fields.push(Field::new("type", Json::Str(self.content_type.clone())));
        assert(field_views(fields@) =~= seq![fld("type"@, JsonView::Str(self.content_type@))]);
        push_optional(&mut fields, "text", &self.text);
        match &self.image_url {
            Some(image) => {
                let ghost head = field_views(fields@);
                let mut inner: Vec<Field> = Vec::new();
                inner.push(Field::new("url", Json::Str(image.url.clone())));
                assert(field_views(inner@) =~= seq![fld("url"@, JsonView::Str(image.url@))]);
                push_optional(&mut inner, "detail", &image.detail);
                let object = Json::object(inner);
                fields.push(Field::new("image_url", object));
                assert(field_views(fields@) =~= head.push(fld("image_url"@, object@)));
                assert(field_views(fields@) =~= item_fields(self@));
            },
            None => {
                assert(field_views(fields@) =~= item_fields(self@));
            },
        }
        Json::object(fields)
    }
}

/// The content of a message with images as an array of parts: its text
/// unless empty, then the images.
pub fn content_array(content: &str, images: &Vec<String>) -> (json: Json)
    ensures
        json@ == JsonView::Array(content_parts(content@, texts(images@))),
{
    let ghost model = texts(images@);
    let mut parts: Vec<Json> = Vec::new();
    if !content.is_empty() {
        parts.push(OpenRouterContentItem::text(content).to_json());
    }
    let ghost head = json_views(parts@);
    assert(head =~= if content@.len() > 0 {
        seq![text_part(content@)]
    } else {
        Seq::empty()
    });
    let mut i: usize = 0;
    assert(json_views(parts@) =~= head + image_parts(model, 0));
    while i < images.len()
        invariant
            i <= images.len(),
            model == texts(images@),
            json_views(parts@) == head + image_parts(model, i as int),
        decreases images.len() - i,
    {
        let ghost so_far = json_views(parts@);
        let part = OpenRouterContentItem::image(images[i].as_str()).to_json();
        parts.push(part);
        assert(json_views(parts@) =~= so_far.push(part@));
        i = i + 1;
        assert(json_views(parts@) =~= head + image_parts(model, i as int));
    }
    Json::array(parts)
}

} // verus!
