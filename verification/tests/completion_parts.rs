use tfls_lsp::builtin::ConstraintOp;
use tfls_lsp::completion_builtin::tftest_top_level_items;
use tfls_lsp::completion_item::CompletionItem;
use tfls_lsp::completion_schema::{schema_attribute_insert_text, variable_insert_text};
use tfls_lsp::completion_shapes::compute_index_replace_range;
use tfls_lsp::completion_versions::{stamp_version_replace, version_partial_of, CursorSlot};
use tfls_lsp::position::Position;
use tfls_lsp::schema::{AttributeSchema, Json};
use tfls_lsp::variable_type::{Primitive, VariableType};

fn item(label: &str) -> CompletionItem {
    CompletionItem {
        label: label.to_string(),
        kind: None,
        detail: None,
        documentation: None,
        insert_text: Some(label.to_string()),
        insert_text_format: None,
        sort_text: None,
        filter_text: None,
        text_edit: None,
        preselect: false,
        deprecated: false,
    }
}

#[test]
fn inside_version_replaces_typed_partial() {
    let slot = CursorSlot::InsideVersion { op: ConstraintOp::Eq, partial: "5.9".to_string() };
    let out = stamp_version_replace(vec![item("5.94.0")], Position::new(0, 14), &slot);
    let te = out[0].text_edit.as_ref().expect("text_edit");
    assert_eq!((te.range.start.character, te.range.end.character), (11, 14));
    assert_eq!(te.new_text, "5.94.0");
    assert!(out[0].insert_text.is_none(), "insert_text cleared in favour of text_edit");
    assert_eq!(out[0].filter_text.as_deref(), Some("5.94.0"));
}

#[test]
fn after_operator_does_not_set_text_edit() {
    let slot = CursorSlot::AfterOperator(ConstraintOp::Gte);
    let out = stamp_version_replace(vec![item("5.94.0")], Position::new(0, 14), &slot);
    assert!(out[0].text_edit.is_none());
    assert!(out[0].insert_text.is_some());
}

fn range(line: &str, col: u32) -> (u32, u32) {
    let r = compute_index_replace_range(line, Position::new(0, col));
    (r.start.character, r.end.character)
}

#[test]
fn cursor_right_after_bracket_no_close() {
    let (s, e) = range("aws_vpc.eu[", 11);
    assert_eq!((s, e), (11, 11));
}

#[test]
fn cursor_inside_brackets_with_close_present() {
    let (s, e) = range("aws_vpc.eu[xxx]", 11);
    assert_eq!((s, e), (11, 15));
}

#[test]
fn cursor_after_open_quote() {
    let (s, e) = range("aws_vpc.eu[\"partial\"]", 12);
    assert_eq!((s, e), (11, 21));
}

#[test]
fn cursor_between_quotes_empty_key() {
    let (s, e) = range("aws_vpc.eu[\"\"]", 12);
    assert_eq!((s, e), (11, 14));
}

#[test]
fn cursor_after_empty_brackets() {
    let (s, e) = range("aws_vpc.eu[]", 11);
    assert_eq!((s, e), (11, 12));
}

#[test]
fn cursor_column_past_end_of_line_does_not_panic() {
    let (s, e) = range("var.x[", 20);
    assert_eq!((s, e), (6, 6));
}

#[test]
fn cursor_column_mid_codepoint_does_not_panic() {
    let line = "x[\u{00e9}]";
    let _ = range(line, 3);
}

#[test]
fn multibyte_before_bracket_yields_utf16_columns() {
    let line = "var.régions[\"a\"]";
    let (s, e) = range(line, 12);
    assert_eq!((s, e), (12, 16), "UTF-16 columns, not byte offsets");
}

fn untyped() -> AttributeSchema {
    AttributeSchema {
        ty: None,
        required: false,
        optional: false,
        computed: false,
        sensitive: false,
        deprecated: false,
        description: None,
        conflicts_with: Vec::new(),
        required_with: Vec::new(),
        exactly_one_of: Vec::new(),
        at_least_one_of: Vec::new(),
        allowed_values: None,
        block_like: false,
    }
}

fn of_type(ty: Json) -> AttributeSchema {
    AttributeSchema { ty: Some(ty), ..untyped() }
}

fn word(s: &str) -> Json {
    Json::Str(s.to_string())
}

#[test]
fn string_wraps_in_quotes() {
    let attr = of_type(word("string"));
    assert_eq!(schema_attribute_insert_text("ami", &attr), "ami = \"${1}\"");
}

#[test]
fn number_stays_bare() {
    let attr = of_type(word("number"));
    assert_eq!(schema_attribute_insert_text("count", &attr), "count = ${1}");
}

#[test]
fn bool_stays_bare() {
    let attr = of_type(word("bool"));
    assert_eq!(schema_attribute_insert_text("enabled", &attr), "enabled = ${1}");
}

#[test]
fn list_of_string_gets_square_brackets() {
    let attr = of_type(Json::Array(vec![word("list"), word("string")]));
    assert_eq!(schema_attribute_insert_text("tags", &attr), "tags = [${1}]");
}

#[test]
fn set_of_string_gets_square_brackets() {
    let attr = of_type(Json::Array(vec![word("set"), word("string")]));
    assert_eq!(schema_attribute_insert_text("sg_ids", &attr), "sg_ids = [${1}]");
}

#[test]
fn tuple_gets_square_brackets() {
    let attr = of_type(Json::Array(vec![
        word("tuple"),
        Json::Array(vec![word("string"), word("number")]),
    ]));
    assert_eq!(schema_attribute_insert_text("pair", &attr), "pair = [${1}]");
}

#[test]
fn map_gets_curly_braces_multiline() {
    let attr = of_type(Json::Array(vec![word("map"), word("string")]));
    assert_eq!(schema_attribute_insert_text("tags", &attr), "tags = {\n  ${1}\n}");
}

#[test]
fn object_gets_curly_braces_multiline() {
    let attr = of_type(Json::Array(vec![
        word("object"),
        Json::Object(vec![("name".to_string(), word("string"))]),
    ]));
    assert_eq!(schema_attribute_insert_text("cfg", &attr), "cfg = {\n  ${1}\n}");
}

#[test]
fn missing_type_falls_back_to_bare() {
    assert_eq!(schema_attribute_insert_text("x", &untyped()), "x = ${1}");
}

#[test]
fn unknown_primitive_falls_back_to_bare() {
    let attr = of_type(word("dynamic"));
    assert_eq!(schema_attribute_insert_text("x", &attr), "x = ${1}");
}

#[test]
fn variable_string_wraps_in_quotes() {
    let t = VariableType::Primitive(Primitive::Text);
    assert_eq!(variable_insert_text("name", Some(&t)), "name = \"${1}\"");
}

#[test]
fn variable_list_gets_square_brackets() {
    let t = VariableType::ListOf(Box::new(VariableType::Primitive(Primitive::Text)));
    assert_eq!(variable_insert_text("tags", Some(&t)), "tags = [${1}]");
}

#[test]
fn variable_map_gets_curly_braces() {
    let t = VariableType::MapOf(Box::new(VariableType::Primitive(Primitive::Text)));
    assert_eq!(variable_insert_text("tags", Some(&t)), "tags = {\n  ${1}\n}");
}

#[test]
fn variable_any_falls_back_to_bare() {
    let t = VariableType::Any;
    assert_eq!(variable_insert_text("x", Some(&t)), "x = ${1}");
}

#[test]
fn variable_without_type_falls_back_to_bare() {
    assert_eq!(variable_insert_text("x", None), "x = ${1}");
}

#[test]
fn inside_version_yields_typed_digits() {
    let slot = CursorSlot::InsideVersion { op: ConstraintOp::Gte, partial: "4.7".to_string() };
    assert_eq!(version_partial_of(&slot), "4.7");
}

#[test]
fn after_operator_yields_empty() {
    let slot = CursorSlot::AfterOperator(ConstraintOp::Gte);
    assert_eq!(version_partial_of(&slot), "");
}

#[test]
fn top_level_items_offer_run_not_resource() {
    let items = tftest_top_level_items();
    let labels: Vec<&str> = items.iter().map(|i| i.label.as_str()).collect();
    assert!(labels.contains(&"run"));
    assert!(labels.contains(&"mock_provider"));
    assert!(!labels.contains(&"resource"));
}
