use ropey::Rope;
use tfls_lsp::actions::EditMap;
use tfls_lsp::formatting::{
    edits_of_hunks, minimal_text_edits, scan_format, whole_document_range, Hunk,
};
use tfls_lsp::git_ref::{comment_edit, ref_replacement_edit};
use tfls_lsp::hover::followed_by_open_paren;
use tfls_lsp::position::{lsp_position_to_byte_offset, Position, Range, Span, TextEdit};
use tfls_lsp::quick_fixes::compute_unwrap_interpolation_edit;
use tfls_lsp::rename::{narrow_identifier_range, narrow_quoted_label};
use tfls_lsp::scope::{build_scoped_action, range_intersects, scope_kind, scope_title, Scope};

fn r(sl: u32, sc: u32, el: u32, ec: u32) -> Range {
    Range { start: Position::new(sl, sc), end: Position::new(el, ec) }
}

fn span_for(line: &str) -> (Rope, Span, String) {
    let rope = Rope::from_str(line);
    let q1 = line.find('"').unwrap();
    let q2 = line[q1 + 1..].find('"').unwrap() + q1 + 1;
    let raw = line[q1 + 1..q2].to_string();
    (rope, Span { start: q1, end: q2 + 1 }, raw)
}

#[test]
fn ref_replacement_targets_the_ref_token() {
    let line = "  source = \"git::ssh://h/o/r?ref=v1.2.3\"\n";
    let (rope, span, raw) = span_for(line);
    let at = raw.find("v1.2.3").unwrap();
    let ref_span = Some((at, at + "v1.2.3".len()));
    let edit = ref_replacement_edit(&rope, span, ref_span, "deadbeefcafe").unwrap();
    assert_eq!(edit.new_text, "deadbeefcafe");
    let start_col = line.find("v1.2.3").unwrap() as u32;
    assert_eq!(edit.range.start.line, 0);
    assert_eq!(edit.range.start.character, start_col);
    assert_eq!(edit.range.end.character, start_col + "v1.2.3".len() as u32);
}

#[test]
fn comment_added_at_eol_when_absent() {
    let line = "  source = \"git::ssh://h/o/r?ref=abc1234\"\n";
    let (rope, span, _raw) = span_for(line);
    let edit = comment_edit(&rope, span.end, "v1.2.3").unwrap();
    assert_eq!(edit.new_text, " # v1.2.3");
    assert_eq!(edit.range.start, edit.range.end);
    let eol_col = line.trim_end_matches('\n').len() as u32;
    assert_eq!(edit.range.start.character, eol_col);
}

#[test]
fn comment_replaced_when_present() {
    let line = "  source = \"git::ssh://h/o/r?ref=abc1234\" # v1.0.0\n";
    let (rope, span, _raw) = span_for(line);
    let edit = comment_edit(&rope, span.end, "v2.0.0").unwrap();
    assert_eq!(edit.new_text, "# v2.0.0");
    let hash_col = line.find('#').unwrap() as u32;
    let eol_col = line.trim_end_matches('\n').len() as u32;
    assert_eq!(edit.range.start.character, hash_col);
    assert_eq!(edit.range.end.character, eol_col);
}

#[test]
fn a_comment_is_replaced_from_its_first_mark_on() {
    let line = "  source = \"git::ssh://h/o/r?ref=abc1234\" # see https://x\n";
    let rope = Rope::from_str(line);
    let edit = comment_edit(&rope, 41, "v2.0.0").unwrap();
    assert_eq!(edit.range, r(0, 42, 0, 57));
    assert_eq!(edit.new_text, "# v2.0.0");
    let line = "  source = \"git::ssh://h/o/r?ref=abc1234\" // was #1\n";
    let rope = Rope::from_str(line);
    assert_eq!(comment_edit(&rope, 41, "v2.0.0").unwrap().range, r(0, 42, 0, 51));
}

#[test]
fn only_whole_string_interpolations_are_unwrapped() {
    let unwrap = |src: &str, from: u32, to: u32| {
        compute_unwrap_interpolation_edit(&Rope::from_str(src), r(0, from, 0, to))
            .map(|e| e.new_text)
    };
    assert_eq!(unwrap("x = \"${var.b}\"", 4, 14), Some("var.b".to_string()));
    assert_eq!(unwrap("x = \"${{ a = 1 }}\"", 4, 18), Some("{ a = 1 }".to_string()));
    assert_eq!(unwrap("x = \"a-${var.b}\"", 4, 16), None);
    assert_eq!(unwrap("x = \"${var.b}-a\"", 4, 16), None);
    assert_eq!(unwrap("x = \"${var.a}${var.b}\"", 4, 22), None);
    assert_eq!(unwrap("x = \"${ }\"", 4, 10), None);
    assert_eq!(unwrap("x = \"${var.b\"", 4, 13), None);
}

#[test]
fn parentheses_are_found_behind_whitespace() {
    let after_f = |src: &str| followed_by_open_paren(&Rope::from_str(src), 1);
    assert!(after_f("f(x)"));
    assert!(after_f("f \t(x)"));
    assert!(after_f("f\n(x)"));
    assert!(!after_f("f\u{a0}(x)"));
    assert!(!after_f("f x(y)"));
}

#[test]
fn empty_documents_are_not_formatted() {
    assert!(scan_format(&Rope::from_str(""), &Some("\n".to_string())).is_none());
    assert!(scan_format(&Rope::from_str("a"), &Some("a\n".to_string())).is_some());
    assert!(scan_format(&Rope::from_str("a"), &Some("a".to_string())).is_none());
    assert!(scan_format(&Rope::from_str("a"), &None).is_none());
}

#[test]
fn title_instance_uses_template_unchanged() {
    let t = scope_title("Unwrap interpolation", "interp", Scope::Instance, 1);
    assert_eq!(t, "Unwrap interpolation");
}

#[test]
fn title_file_pluralises() {
    let t = scope_title("Unwrap interpolation", "interp", Scope::File, 5);
    assert_eq!(t, "Unwrap 5 interps in this file");
}

#[test]
fn title_module_singular() {
    let t = scope_title("Unwrap interpolation", "interp", Scope::Module, 1);
    assert_eq!(t, "Unwrap 1 interp in this module");
}

#[test]
fn title_workspace_pluralises() {
    let t = scope_title("Unwrap interpolation", "interp", Scope::Workspace, 47);
    assert_eq!(t, "Unwrap 47 interps in workspace");
}

#[test]
fn title_selection() {
    let t = scope_title(
        "Unwrap interpolation",
        "interp",
        Scope::Selection { range: r(0, 0, 5, 0) },
        3,
    );
    assert_eq!(t, "Unwrap 3 interps in selection");
}

#[test]
fn kind_namespacing() {
    assert_eq!(scope_kind(Scope::Instance, "unwrap").as_str(), "quickfix");
    assert_eq!(
        scope_kind(Scope::File, "unwrap").as_str(),
        "source.fixAll.terraform-ls-rs.unwrap"
    );
    assert_eq!(
        scope_kind(Scope::Module, "unwrap").as_str(),
        "source.fixAll.terraform-ls-rs.unwrap.module"
    );
    assert_eq!(
        scope_kind(Scope::Workspace, "unwrap").as_str(),
        "source.fixAll.terraform-ls-rs.unwrap.workspace"
    );
    assert_eq!(
        scope_kind(Scope::Selection { range: r(0, 0, 1, 0) }, "unwrap").as_str(),
        "quickfix.terraform-ls-rs.unwrap.selection"
    );
}

#[test]
fn range_intersection_basics() {
    assert!(range_intersects(&r(0, 0, 5, 0), &r(0, 0, 5, 0)));
    assert!(range_intersects(&r(0, 0, 5, 0), &r(3, 0, 7, 0)));
    assert!(range_intersects(&r(0, 0, 5, 0), &r(5, 0, 7, 0)));
    assert!(!range_intersects(&r(0, 0, 5, 0), &r(6, 0, 10, 0)));
}

#[test]
fn build_action_returns_none_when_empty() {
    let map = EditMap::new();
    assert!(build_scoped_action(Scope::File, map, "Unwrap", "interp", None, "unwrap").is_none());
}

#[test]
fn build_action_drops_empty_uri_entries() {
    let mut map = EditMap::new();
    map.add("file:///x.tf", Vec::new());
    assert!(build_scoped_action(Scope::File, map, "Unwrap", "interp", None, "unwrap").is_none());
}

#[test]
fn build_action_counts_edits() {
    let mut map = EditMap::new();
    map.add(
        "file:///x.tf",
        vec![
            TextEdit { range: r(0, 0, 0, 1), new_text: "a".to_string() },
            TextEdit { range: r(1, 0, 1, 1), new_text: "b".to_string() },
        ],
    );
    let action =
        build_scoped_action(Scope::Module, map, "Unwrap it", "interp", None, "unwrap").unwrap();
    assert_eq!(action.title, "Unwrap 2 interps in this module");
    assert_eq!(action.kind, "source.fixAll.terraform-ls-rs.unwrap.module");
}

#[test]
fn whole_document_range_end_is_utf16_on_non_bmp_final_line() {
    let src = "resource \"x\" \"y\" {}\n# 🎉 done";
    let rope = Rope::from_str(src);
    let range = whole_document_range(&rope);
    assert_eq!(range.start, Position::new(0, 0));

    let last_line = rope.len_lines().saturating_sub(1);
    let last_line_slice = rope.line(last_line);
    let utf16_len = last_line_slice.len_utf16_cu() as u32;
    let char_len = last_line_slice.len_chars() as u32;
    assert_eq!(utf16_len, 9, "🎉 counts as 2 UTF-16 units");
    assert_eq!(char_len, 8, "🎉 counts as 1 char");

    assert_eq!(
        range.end,
        Position::new(last_line as u32, utf16_len),
        "end column must be UTF-16 code units, not char count"
    );
}

fn apply_edits(text: &str, mut edits: Vec<TextEdit>) -> String {
    let rope = Rope::from_str(text);
    let byte_of = |p: Position| -> usize {
        lsp_position_to_byte_offset(&rope, p).unwrap_or(rope.len_bytes())
    };
    edits.sort_by(|a, b| {
        (b.range.start.line, b.range.start.character)
            .cmp(&(a.range.start.line, a.range.start.character))
    });
    let mut s = text.to_string();
    for e in edits {
        s.replace_range(byte_of(e.range.start)..byte_of(e.range.end), &e.new_text);
    }
    s
}

#[test]
fn minimal_edits_roundtrip_to_new() {
    let old = "a\nb\nc\nd\n";
    let new = "a\nB\nc\nD\n";
    let edits = minimal_text_edits(old, new);
    assert_eq!(apply_edits(old, edits), new);
}

#[test]
fn minimal_edits_lead_to_the_new_text_in_odd_cases() {
    let cases = [
        ("x\ny\n", "y\ny\nx\n"),
        ("", "a\n"),
        ("a\n", ""),
        ("a", "a\n"),
        ("a\r\nb\r\n", "a\r\nc\r\n"),
        ("a\u{b}b\nc\n", "a\u{b}b\nd\n"),
        ("a\u{2028}b\nc\nd\n", "e\na\u{2028}b\nd\n"),
        ("a\nb\na\nb\n", "b\na\nb\na\n"),
    ];
    for (old, new) in cases {
        assert_eq!(apply_edits(old, minimal_text_edits(old, new)), new, "{old:?} {new:?}");
    }
}

#[test]
fn hunks_that_do_not_fit_become_one_edit() {
    let hunk = Hunk { equal: true, old_start: 0, old_end: 1, new_start: 0, new_end: 1 };
    let edits = edits_of_hunks("a\n", "b\n", &vec![hunk]);
    assert_eq!(edits.len(), 1);
    assert_eq!(edits[0].range, r(0, 0, 1, 0));
    assert_eq!(edits[0].new_text, "b\n");
}

#[test]
fn minimal_edits_leave_unchanged_lines_untouched() {
    let old = "keep_a\nchange_me\nkeep_b\n";
    let new = "keep_a\nCHANGED\nkeep_b\n";
    let edits = minimal_text_edits(old, new);
    assert!(!edits.is_empty());
    for e in &edits {
        assert!(
            e.range.start.line >= 1 && e.range.end.line <= 2,
            "edit must be confined to the changed line; got {:?}",
            e.range
        );
    }
    assert_eq!(apply_edits(old, edits), new);
}

#[test]
fn minimal_edits_preserve_a_value_the_formatter_keeps() {
    let old = "module \"m\" {\n  source = \"../new-path\"\n  x = 1\n}\n";
    let new = "module \"m\" {\n  source = \"../new-path\"\n  y = 2\n}\n";
    let out = apply_edits(old, minimal_text_edits(old, new));
    assert!(out.contains("\"../new-path\""), "source value preserved: {out}");
    assert_eq!(out, new);
}

#[test]
fn narrow_identifier_picks_tail_segment() {
    let rope = Rope::from_str("output \"x\" { value = var.region }\n");
    let narrow = narrow_identifier_range(&rope, r(0, 21, 0, 31), "region").expect("narrow");
    assert_eq!(narrow.start, Position::new(0, 25));
    assert_eq!(narrow.end, Position::new(0, 31));
}

#[test]
fn narrow_quoted_label_picks_label_text() {
    let src = "variable \"region\" { default = \"x\" }\n";
    let rope = Rope::from_str(src);
    let narrow = narrow_quoted_label(&rope, r(0, 0, 0, 35), "region").expect("narrow");
    assert_eq!(narrow.start, Position::new(0, 10));
    assert_eq!(narrow.end, Position::new(0, 16));
}

#[test]
fn narrow_quoted_label_returns_none_when_missing() {
    let rope = Rope::from_str("variable \"other\" {}\n");
    assert!(narrow_quoted_label(&rope, r(0, 0, 0, 19), "region").is_none());
}
