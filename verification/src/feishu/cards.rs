//! Helpers to build interactive-card payloads (card JSON 2.0).
//!
//! Root shape:
//! ```json
//! {
//!   "schema": "2.0",
//!   "config": {...},
//!   "header": {...},
//!   "body": { "direction": "vertical", "elements": [...] }
//! }
//! ```

use vstd::prelude::*;
use vstd::string::*;
use super::json::{list_view, Json, JsonView};

verus! {

// ---------- card root ----------

pub open spec fn card_json(header: JsonView, elements: Seq<JsonView>) -> JsonView {
    JsonView::object()
        .with_text("schema"@, "2.0"@)
        .with(
            "config"@,
            JsonView::object()
                .with("wide_screen_mode"@, JsonView::Bool(true))
                .with("update_multi"@, JsonView::Bool(true)),
        )
        .with("header"@, header)
        .with(
            "body"@,
            JsonView::object()
                .with_text("direction"@, "vertical"@)
                .with_text("padding"@, "12px 16px 12px 16px"@)
                .with_text("vertical_spacing"@, "8px"@)
                .with("elements"@, JsonView::List(elements)),
        )
}

pub fn card(header_value: Json, elements: Vec<Json>) -> (r: Json)
    ensures
        r@ == card_json(header_value@, list_view(elements@)),
{
    Json::object()
        .with_text("schema", "2.0")
        .with(
            "config",
            Json::object()
                .with("wide_screen_mode", Json::Bool(true))
                .with("update_multi", Json::Bool(true)),
        )
        .with("header", header_value)
        .with(
            "body",
            Json::object()
                .with_text("direction", "vertical")
                .with_text("padding", "12px 16px 12px 16px")
                .with_text("vertical_spacing", "8px")
                .with("elements", Json::list(elements)),
        )
}

// ---------- header ----------

pub open spec fn plain_text_json(content: Seq<char>) -> JsonView {
    JsonView::object().with_text("tag"@, "plain_text"@).with_text("content"@, content)
}

pub(crate) fn plain_text(content: &str) -> (r: Json)
    ensures
        r@ == plain_text_json(content@),
{
    Json::object().with_text("tag", "plain_text").with_text("content", content)
}

pub open spec fn header_json(title: Seq<char>, template: Seq<char>) -> JsonView {
    JsonView::object().with("title"@, plain_text_json(title)).with_text("template"@, template)
}

pub fn header(title: &str, template: &str) -> (r: Json)
    ensures
        r@ == header_json(title@, template@),
{
    Json::object().with("title", plain_text(title)).with_text("template", template)
}

pub open spec fn header_with_subtitle_json(title: Seq<char>, subtitle: Seq<char>, template: Seq<char>) -> JsonView {
    JsonView::object()
        .with("title"@, plain_text_json(title))
        .with("subtitle"@, plain_text_json(subtitle))
        .with_text("template"@, template)
}

pub fn header_with_subtitle(title: &str, subtitle: &str, template: &str) -> (r: Json)
    ensures
        r@ == header_with_subtitle_json(title@, subtitle@, template@),
{
    Json::object()
        .with("title", plain_text(title))
        .with("subtitle", plain_text(subtitle))
        .with_text("template", template)
}

// ---------- content ----------

pub open spec fn markdown_json(content: Seq<char>) -> JsonView {
    JsonView::object().with_text("tag"@, "markdown"@).with_text("content"@, content)
}

/// Markdown component. Accepts the platform's extensions — bold (`**...**`),
/// `<at id="ou_..."></at>`, etc.
pub fn markdown(content: &str) -> (r: Json)
    ensures
        r@ == markdown_json(content@),
{
    Json::object().with_text("tag", "markdown").with_text("content", content)
}

pub open spec fn note_json(content: Seq<char>) -> JsonView {
    JsonView::object()
        .with_text("tag"@, "markdown"@)
        .with_text("text_size"@, "notation"@)
        .with_text("content"@, content)
}

/// Smaller, muted markdown line.
pub fn note(content: &str) -> (r: Json)
    ensures
        r@ == note_json(content@),
{
    Json::object()
        .with_text("tag", "markdown")
        .with_text("text_size", "notation")
        .with_text("content", content)
}

pub open spec fn heading_json(content: Seq<char>) -> JsonView {
    JsonView::object()
        .with_text("tag"@, "markdown"@)
        .with_text("text_size"@, "heading"@)
        .with_text("text_align"@, "center"@)
        .with_text("content"@, content)
}

/// Heading-sized markdown — used for the rank and suit on card tiles.
pub fn heading_md(content: &str) -> (r: Json)
    ensures
        r@ == heading_json(content@),
{
    Json::object()
        .with_text("tag", "markdown")
        .with_text("text_size", "heading")
        .with_text("text_align", "center")
        .with_text("content", content)
}

/// The content in a `<font>` tag.
pub open spec fn coloured(content: Seq<char>, colour: Seq<char>) -> Seq<char> {
    "<font color='"@ + colour + "'>"@ + content + "</font>"@
}

/// Same as `heading_md` but the content is wrapped in a `<font>` tag so the
/// caller can pick a colour (e.g. `"white"` for content sitting on a red
/// background).
pub fn heading_md_colored(content: &str, text_color: &str) -> (r: Json)
    ensures
        r@ == heading_json(coloured(content@, text_color@)),
{
    let mut s = "<font color='".to_owned();
    s.append(text_color);
    s.append("'>");
    s.append(content);
    s.append("</font>");
    heading_md(s.as_str())
}

/// Another name for [`markdown`].
pub fn div_md(content: &str) -> (r: Json)
    ensures
        r@ == markdown_json(content@),
{
    markdown(content)
}

/// Another name for [`note`].
pub fn note_md(content: &str) -> (r: Json)
    ensures
        r@ == note_json(content@),
{
    note(content)
}

pub open spec fn hr_json() -> JsonView {
    JsonView::object().with_text("tag"@, "hr"@)
}

pub fn hr() -> (r: Json)
    ensures
        r@ == hr_json(),
{
    Json::object().with_text("tag", "hr")
}

// ---------- layout ----------

pub open spec fn column_set_json(columns: Seq<JsonView>) -> JsonView {
    JsonView::object()
        .with_text("tag"@, "column_set"@)
        .with_text("horizontal_spacing"@, "8px"@)
        .with_text("horizontal_align"@, "left"@)
        .with("columns"@, JsonView::List(columns))
}

pub fn column_set(columns: Vec<Json>) -> (r: Json)
    ensures
        r@ == column_set_json(list_view(columns@)),
{
    Json::object()
        .with_text("tag", "column_set")
        .with_text("horizontal_spacing", "8px")
        .with_text("horizontal_align", "left")
        .with("columns", Json::list(columns))
}

pub open spec fn column_json(elements: Seq<JsonView>, weight: int) -> JsonView {
    JsonView::object()
        .with_text("tag"@, "column"@)
        .with_text("width"@, "weighted"@)
        .with("weight"@, JsonView::Int(weight))
        .with_text("vertical_align"@, "center"@)
        .with("elements"@, JsonView::List(elements))
}

pub fn column(elements: Vec<Json>, weight: u32) -> (r: Json)
    ensures
        r@ == column_json(list_view(elements@), weight as int),
{
    Json::object()
        .with_text("tag", "column")
        .with_text("width", "weighted")
        .with("weight", Json::number(weight as u64))
        .with_text("vertical_align", "center")
        .with("elements", Json::list(elements))
}

pub open spec fn tile_column_json(elements: Seq<JsonView>, weight: int, background: Seq<char>) -> JsonView {
    JsonView::object()
        .with_text("tag"@, "column"@)
        .with_text("width"@, "weighted"@)
        .with("weight"@, JsonView::Int(weight))
        .with_text("vertical_align"@, "center"@)
        .with_text("padding"@, "12px 8px 12px 8px"@)
        .with_text("background_style"@, background)
        .with("elements"@, JsonView::List(elements))
}

/// A column with a coloured background — used for visual card tiles.
pub fn tile_column(elements: Vec<Json>, weight: u32, bg_style: &str) -> (r: Json)
    ensures
        r@ == tile_column_json(list_view(elements@), weight as int, bg_style@),
{
    Json::object()
        .with_text("tag", "column")
        .with_text("width", "weighted")
        .with("weight", Json::number(weight as u64))
        .with_text("vertical_align", "center")
        .with_text("padding", "12px 8px 12px 8px")
        .with_text("background_style", bg_style)
        .with("elements", Json::list(elements))
}

// ---------- buttons ----------

/// What a click sends back.
pub open spec fn behaviors_json(value: JsonView) -> JsonView {
    JsonView::List(seq![JsonView::object().with_text("type"@, "callback"@).with("value"@, value)])
}

fn behaviors(value: Json) -> (r: Json)
    ensures
        r@ == behaviors_json(value@),
{
    let items = vec![Json::object().with_text("type", "callback").with("value", value)];
    assert(list_view(items@) =~= behaviors_json(value@)->List_0);
    Json::list(items)
}

pub open spec fn button_json(text: Seq<char>, value: JsonView, style: Seq<char>) -> JsonView {
    JsonView::object()
        .with_text("tag"@, "button"@)
        .with("text"@, plain_text_json(text))
        .with_text("type"@, style)
        .with_text("size"@, "medium"@)
        .with_text("width"@, "default"@)
        .with("behaviors"@, behaviors_json(value))
}

/// Plain interactive button. `style`: any of `default | primary | danger |
/// text | primary_text | danger_text | primary_filled | danger_filled`.
pub fn button(text: &str, value: Json, style: &str) -> (r: Json)
    ensures
        r@ == button_json(text@, value@, style@),
{
    Json::object()
        .with_text("tag", "button")
        .with("text", plain_text(text))
        .with_text("type", style)
        .with_text("size", "medium")
        .with_text("width", "default")
        .with("behaviors", behaviors(value))
}

/// Whether the text is 32 lower-case hexadecimal digits.
pub open spec fn is_simple_id(id: Seq<char>) -> bool {
    id.len() == 32 && forall|i: int| 0 <= i < 32 ==> '0' <= #[trigger] id[i] <= '9' || 'a' <= id[i] <= 'f'
}

/// A random id from `Uuid::new_v4`, in its simple form: 32 lower-case
/// hexadecimal digits. Which id comes is left to chance.
#[verifier::external_body]
fn fresh_id() -> (r: String)
    ensures
        is_simple_id(r@),
{
    uuid::Uuid::new_v4().simple().to_string()
}

pub open spec fn submit_button_json(id: Seq<char>, text: Seq<char>, value: JsonView, style: Seq<char>) -> JsonView {
    JsonView::object()
        .with_text("tag"@, "button"@)
        .with("text"@, plain_text_json(text))
        .with_text("type"@, style)
        .with_text("size"@, "medium"@)
        .with_text("width"@, "default"@)
        .with_text("form_action_type"@, "submit"@)
        .with_text("name"@, "submit_"@ + id)
        .with("behaviors"@, behaviors_json(value))
}

/// A submit button for use *inside a `form` container*, with a fresh name. When
/// clicked, the form's input values are bundled in `event.action.form_value`.
pub fn submit_button(text: &str, value: Json, style: &str) -> (r: Json)
    ensures
        exists|id: Seq<char>| is_simple_id(id) && r@ == #[trigger] submit_button_json(id, text@, value@, style@),
{
    let id = fresh_id();
    let r = submit_button_named(id.as_str(), text, value, style);
    assert(r@ == submit_button_json(id@, text@, value@, style@));
    r
}

/// The submit button whose name ends in `id`.
pub fn submit_button_named(id: &str, text: &str, value: Json, style: &str) -> (r: Json)
    ensures
        r@ == submit_button_json(id@, text@, value@, style@),
{
    let mut name = "submit_".to_owned();
    name.append(id);
    Json::object()
        .with_text("tag", "button")
        .with("text", plain_text(text))
        .with_text("type", style)
        .with_text("size", "medium")
        .with_text("width", "default")
        .with_text("form_action_type", "submit")
        .with_text("name", name.as_str())
        .with("behaviors", behaviors(value))
}

pub open spec fn button_cell_json(button: JsonView) -> JsonView {
    JsonView::object()
        .with_text("tag"@, "column"@)
        .with_text("width"@, "auto"@)
        .with_text("vertical_align"@, "center"@)
        .with("elements"@, JsonView::List(seq![button]))
}

fn button_cell(button: Json) -> (r: Json)
    ensures
        r@ == button_cell_json(button@),
{
    let items = vec![button];
    assert(list_view(items@) =~= seq![button@]);
    Json::object()
        .with_text("tag", "column")
        .with_text("width", "auto")
        .with_text("vertical_align", "center")
        .with("elements", Json::list(items))
}

pub open spec fn button_row_json(buttons: Seq<JsonView>) -> JsonView {
    if buttons.len() == 1 {
        buttons[0]
    } else {
        JsonView::object()
            .with_text("tag"@, "column_set"@)
            .with_text("flex_mode"@, "flow"@)
            .with_text("horizontal_spacing"@, "8px"@)
            .with_text("vertical_spacing"@, "8px"@)
            .with_text("horizontal_align"@, "left"@)
            .with("columns"@, JsonView::List(Seq::new(buttons.len(), |i: int| button_cell_json(buttons[i]))))
    }
}

/// Lay out multiple buttons in a horizontal row that wraps on narrow screens.
///
/// `flex_mode: "flow"` 让窄屏（移动端）放不下时自动换行，而不是把按钮挤成
/// 一坨字看不清。`width: "auto"` 让每个按钮按文字宽度占位，不强行等分。
/// `vertical_spacing` 给换行后的两行之间留间距。
pub fn button_row(buttons: Vec<Json>) -> (r: Json)
    ensures
        r@ == button_row_json(list_view(buttons@)),
{
    let ghost all = list_view(buttons@);
    let mut buttons = buttons;
    if buttons.len() == 1 {
        return buttons.swap_remove(0);
    }
    let mut cells: Vec<Json> = Vec::new();
    let mut i: usize = 0;
    while i < buttons.len()
        invariant
            i <= buttons@.len(),
            all == list_view(buttons@),
            cells@.len() == i,
            forall|k: int| 0 <= k < i ==> (#[trigger] cells@[k])@ == button_cell_json(all[k]),
        decreases buttons@.len() - i,
    {
        cells.push(button_cell(buttons[i].copy()));
        i = i + 1;
    }
    assert(list_view(cells@) =~= Seq::new(all.len(), |i: int| button_cell_json(all[i])));
    Json::object()
        .with_text("tag", "column_set")
        .with_text("flex_mode", "flow")
        .with_text("horizontal_spacing", "8px")
        .with_text("vertical_spacing", "8px")
        .with_text("horizontal_align", "left")
        .with("columns", Json::list(cells))
}

/// Another name for [`button_row`].
pub fn actions(buttons: Vec<Json>) -> (r: Json)
    ensures
        r@ == button_row_json(list_view(buttons@)),
{
    button_row(buttons)
}

// ---------- form + input ----------

pub open spec fn form_json(name: Seq<char>, elements: Seq<JsonView>) -> JsonView {
    JsonView::object()
        .with_text("tag"@, "form"@)
        .with_text("name"@, name)
        .with("elements"@, JsonView::List(elements))
}

pub fn form(name: &str, elements: Vec<Json>) -> (r: Json)
    ensures
        r@ == form_json(name@, list_view(elements@)),
{
    Json::object()
        .with_text("tag", "form")
        .with_text("name", name)
        .with("elements", Json::list(elements))
}

pub open spec fn input_field_json(name: Seq<char>, placeholder: Seq<char>, default_value: Seq<char>, label: Seq<char>) -> JsonView {
    JsonView::object()
        .with_text("tag"@, "input"@)
        .with_text("name"@, name)
        .with("placeholder"@, plain_text_json(placeholder))
        .with_text("default_value"@, default_value)
        .with("label"@, plain_text_json(label))
        .with_text("label_position"@, "left"@)
        .with("max_length"@, JsonView::Int(10))
        .with_text("input_type"@, "text"@)
        .with_text("width"@, "fill"@)
}

pub fn input_field(name: &str, placeholder: &str, default_value: &str, label: &str) -> (r: Json)
    ensures
        r@ == input_field_json(name@, placeholder@, default_value@, label@),
{
    Json::object()
        .with_text("tag", "input")
        .with_text("name", name)
        .with("placeholder", plain_text(placeholder))
        .with_text("default_value", default_value)
        .with("label", plain_text(label))
        .with_text("label_position", "left")
        .with("max_length", Json::number(10))
        .with_text("input_type", "text")
        .with_text("width", "fill")
}

// ---------- people ----------

pub open spec fn person_list_json(open_ids: Seq<Seq<char>>) -> JsonView {
    JsonView::object()
        .with_text("tag"@, "person_list"@)
        .with_text("size"@, "medium"@)
        .with("show_avatar"@, JsonView::Bool(true))
        .with("show_name"@, JsonView::Bool(true))
        .with("lines"@, JsonView::Int(2))
        .with(
            "persons"@,
            JsonView::List(
                Seq::new(open_ids.len(), |i: int| JsonView::object().with_text("id"@, open_ids[i])),
            ),
        )
}

pub open spec fn texts_view(texts: Seq<String>) -> Seq<Seq<char>> {
    Seq::new(texts.len(), |i: int| texts[i]@)
}

/// `person_list` component — show avatars and names for a list of users.
pub fn person_list(open_ids: &[String]) -> (r: Json)
    ensures
        r@ == person_list_json(texts_view(open_ids@)),
{
    let ghost ids = texts_view(open_ids@);
    let mut persons: Vec<Json> = Vec::new();
    let mut i: usize = 0;
    while i < open_ids.len()
        invariant
            i <= open_ids@.len(),
            ids == texts_view(open_ids@),
            persons@.len() == i,
            forall|k: int| 0 <= k < i ==> (#[trigger] persons@[k])@ == JsonView::object().with_text("id"@, ids[k]),
        decreases open_ids@.len() - i,
    {
        persons.push(Json::object().with_text("id", open_ids[i].as_str()));
        i = i + 1;
    }
    assert(list_view(persons@) =~= Seq::new(ids.len(), |i: int| JsonView::object().with_text("id"@, ids[i])));
    Json::object()
        .with_text("tag", "person_list")
        .with_text("size", "medium")
        .with("show_avatar", Json::Bool(true))
        .with("show_name", Json::Bool(true))
        .with("lines", Json::number(2))
        .with("persons", Json::list(persons))
}

// ---------- text helpers ----------

pub open spec fn at_text(open_id: Seq<char>) -> Seq<char> {
    "<at id=\""@ + open_id + "\"></at>"@
}

/// At-mention chunk usable inside markdown content.
pub fn at(open_id: &str) -> (r: String)
    ensures
        r@ == at_text(open_id@),
{
    let mut s = "<at id=\"".to_owned();
    s.append(open_id);
    s.append("\"></at>");
    s
}

} // verus!
