use hcl_edit::expr::{Expression as HclExpr, ObjectKey as HclKey, TraversalOperator as HclOp};
use hcl_edit::repr::Span as NodeSpan;
use hcl_edit::structure::{Body as HclBody, Structure as HclStructure};
use hcl_edit::template::{Directive, Element as HclElement, Template};
use ropey::Rope;
use std::collections::BTreeMap;
use tfls_lsp::actions::{
    file_address, CodeAction, Diagnostic, DiagnosticSeverity, DocumentOp, EditMap, FileEdits, FileRef,
    WorkspaceEdit,
};
use tfls_lsp::block_rename::{emit_block_rename_actions, GateOutcome, VersionGate};
use tfls_lsp::code_action::{code_action, CodeActionParams};
use tfls_lsp::commands::{
    CMD_FETCH_SCHEMAS, CMD_INIT_WORKSPACE, CMD_VALIDATE, COMMANDS, CliOutcome, CliReport,
    CommandPlan, cli_report, cli_timeout, command_names, execute_command,
};
use tfls_lsp::document::{did_change, did_close, did_open, did_save, ApplyOutcome};
use tfls_lsp::document_link::document_link;
use tfls_lsp::git_ref::{pin_ref_action, switch_version_actions, NewerTag, SourceFacts};
use tfls_lsp::hcl::{
    walk_expressions, Attribute, BinaryOp, Block, BlockLabel, Body, Conditional, Element,
    ExprKind, Expression, ForExpr, FuncCall, Ident, ObjectItem, ObjectKey, Operator, Structure,
    Traversal, TraversalOperator,
};
use tfls_lsp::hover::{
    function_hover, named_value_hover, type_constraint_hover, CursorWord, NamedValue,
};
use tfls_lsp::inlay_hints::{
    humanise_age, inlay_hint, CachedVersions, ParsedConstraint, VersionContext, VersionSource,
};
use tfls_lsp::move_blocks::scan_blocks_of_kind;
use tfls_lsp::position::{
    hcl_span_to_lsp_range, lsp_position_to_byte_offset, Position, Range, Span, TextEdit,
};
use tfls_lsp::rename::rename;
use tfls_lsp::schema::{
    BlockSchema, Json, ProviderAddress, ProviderSchema, ResourceSchema, SchemaEntry,
};
use tfls_lsp::state::{
    DocUri, DocumentState, FunctionEntry, FunctionParameter, Reference, ReferenceKind,
    ResourceSymbol, StateStore, Symbol, SymbolIndex, SymbolKey, SymbolKind, SymbolLocation,
    SymbolTable,
};
use tfls_lsp::variable_types::find_variable_block;
use tfls_lsp::version_cache::{
    cache_paths, module_entries, provider_entries, sanitise, tool_entries, ToolList,
};
use tfls_lsp::versions::{
    age_days, days_from_civil, merge_versions, sort_versions_desc, with_dates, VersionEntry,
};

fn span(s: Option<std::ops::Range<usize>>) -> Option<Span> {
    s.map(|r| Span { start: r.start, end: r.end })
}

fn exprs_of(t: &Template, out: &mut Vec<Expression>) {
    for e in t.iter() {
        match e {
            HclElement::Literal(_) => {}
            HclElement::Interpolation(i) => out.push(expr(&i.expr)),
            HclElement::Directive(d) => directive(d, out),
        }
    }
}

fn directive(d: &Directive, out: &mut Vec<Expression>) {
    match d {
        Directive::If(i) => {
            out.push(expr(&i.if_expr.cond_expr));
            exprs_of(&i.if_expr.template, out);
            if let Some(e) = &i.else_expr {
                exprs_of(&e.template, out);
            }
        }
        Directive::For(f) => {
            out.push(expr(&f.for_expr.collection_expr));
            exprs_of(&f.for_expr.template, out);
        }
    }
}

fn element(e: &HclElement) -> Element {
    match e {
        HclElement::Literal(s) => Element::Literal(s.as_str().to_string()),
        HclElement::Interpolation(i) => Element::Interpolation(expr(&i.expr)),
        HclElement::Directive(d) => {
            let mut v = Vec::new();
            directive(d, &mut v);
            Element::Directive(v)
        }
    }
}

fn expr(e: &HclExpr) -> Expression {
    let kind = match e {
        HclExpr::Null(_) => ExprKind::Null,
        HclExpr::Bool(b) => ExprKind::Bool(**b),
        HclExpr::Number(n) => ExprKind::Number(n.value().to_string()),
        HclExpr::String(s) => ExprKind::Str(s.as_str().to_string()),
        HclExpr::Array(a) => ExprKind::Array(a.iter().map(expr).collect()),
        HclExpr::Object(o) => ExprKind::Object(
            o.iter()
                .map(|(k, v)| ObjectItem {
                    key: match k {
                        HclKey::Ident(i) => ObjectKey::Ident(Ident {
                            text: i.as_str().to_string(),
                            span: span(i.span()),
                        }),
                        HclKey::Expression(e) => ObjectKey::Expression(expr(e)),
                    },
                    value: expr(v.expr()),
                })
                .collect(),
        ),
        HclExpr::StringTemplate(t) => ExprKind::StringTemplate(t.iter().map(element).collect()),
        HclExpr::HeredocTemplate(t) => {
            ExprKind::HeredocTemplate(t.template.iter().map(element).collect())
        }
        HclExpr::Parenthesis(p) => ExprKind::Parenthesis(Box::new(expr(p.inner()))),
        HclExpr::Variable(v) => ExprKind::Variable(v.as_str().to_string()),
        HclExpr::Conditional(c) => ExprKind::Conditional(Box::new(Conditional {
            cond_expr: expr(&c.cond_expr),
            true_expr: expr(&c.true_expr),
            false_expr: expr(&c.false_expr),
        })),
        HclExpr::FuncCall(f) => ExprKind::FuncCall(FuncCall {
            namespace: f
                .name
                .namespace
                .iter()
                .map(|i| Ident { text: i.as_str().to_string(), span: span(i.span()) })
                .collect(),
            name: Ident {
                text: f.name.name.as_str().to_string(),
                span: span(f.name.name.span()),
            },
            args: f.args.iter().map(expr).collect(),
        }),
        HclExpr::Traversal(t) => ExprKind::Traversal(Box::new(Traversal {
            expr: expr(&t.expr),
            operators: t
                .operators
                .iter()
                .map(|o| Operator {
                    kind: match o.value() {
                        HclOp::AttrSplat(_) => TraversalOperator::AttrSplat,
                        HclOp::FullSplat(_) => TraversalOperator::FullSplat,
                        HclOp::GetAttr(i) => TraversalOperator::GetAttr(Ident {
                            text: i.as_str().to_string(),
                            span: span(i.span()),
                        }),
                        HclOp::Index(e) => TraversalOperator::Index(expr(e)),
                        HclOp::LegacyIndex(n) => TraversalOperator::LegacyIndex(**n),
                    },
                    span: span(o.span()),
                })
                .collect(),
        })),
        HclExpr::UnaryOp(u) => ExprKind::UnaryOp(Box::new(expr(&u.expr))),
        HclExpr::BinaryOp(b) => ExprKind::BinaryOp(Box::new(BinaryOp {
            lhs_expr: expr(&b.lhs_expr),
            rhs_expr: expr(&b.rhs_expr),
        })),
        HclExpr::ForExpr(f) => ExprKind::ForExpr(Box::new(ForExpr {
            collection_expr: expr(&f.intro.collection_expr),
            key_expr: f.key_expr.as_ref().map(expr),
            value_expr: expr(&f.value_expr),
            cond_expr: f.cond.as_ref().map(|c| expr(&c.expr)),
        })),
    };
    Expression { kind, span: span(e.span()) }
}

fn tree(b: &HclBody) -> Body {
    Body {
        structures: b
            .iter()
            .map(|s| match s {
                HclStructure::Attribute(a) => Structure::Attribute(Attribute {
                    key: Ident { text: a.key.as_str().to_string(), span: span(a.key.span()) },
                    value: expr(&a.value),
                    span: span(a.span()),
                }),
                HclStructure::Block(b) => Structure::Block(Block {
                    ident: Ident { text: b.ident.as_str().to_string(), span: span(b.ident.span()) },
                    labels: b
                        .labels
                        .iter()
                        .map(|l| BlockLabel {
                            text: l.as_str().to_string(),
                            quoted: l.is_string(),
                            span: span(l.span()),
                        })
                        .collect(),
                    body: tree(&b.body),
                    span: span(b.span()),
                }),
            })
            .collect(),
        span: span(b.span()),
    }
}

fn parse(src: &str) -> Body {
    tree(&hcl_edit::parser::parse_body(src).expect("parses"))
}

fn uri(text: &str) -> DocUri {
    let path = text.strip_prefix("file://").unwrap_or(text).to_string();
    let (dir, name) = match path.rsplit_once('/') {
        Some((d, n)) => (d.to_string(), n.to_string()),
        None => (String::new(), path.clone()),
    };
    DocUri { text: text.to_string(), path, dir: Some(dir), file_name: Some(name) }
}

fn no_symbols() -> SymbolTable {
    SymbolTable {
        variables: Vec::new(),
        locals: Vec::new(),
        outputs: Vec::new(),
        modules: Vec::new(),
        resources: Vec::new(),
        data_sources: Vec::new(),
        module_sources: Vec::new(),
        variable_types: Vec::new(),
        variable_defaults: Vec::new(),
        local_shapes: Vec::new(),
        for_each_shapes: Vec::new(),
        data_source_for_each_shapes: Vec::new(),
        module_for_each_shapes: Vec::new(),
    }
}

fn document(address: &str, src: &str) -> DocumentState {
    DocumentState {
        uri: uri(address),
        rope: Rope::from_str(src),
        body: Some(parse(src)),
        version: 1,
        symbols: no_symbols(),
        references: Vec::new(),
        formatted: None,
        interpolation_ranges: Vec::new(),
        lookup_ranges: Vec::new(),
        supports_terraform_data: false,
        supports_templatefile: false,
        function_locals: Vec::new(),
    }
}

fn store(documents: Vec<DocumentState>) -> StateStore {
    StateStore {
        documents,
        disk: Vec::new(),
        schemas: Vec::new(),
        assigned_types: Vec::new(),
        definitions_by_name: Vec::new(),
        references_by_name: Vec::new(),
        functions: Vec::new(),
        module_dirs: Vec::new(),
    }
}


fn location(doc: &DocumentState, s: Option<Span>) -> SymbolLocation {
    SymbolLocation {
        uri: doc.uri.text.clone(),
        dir: doc.uri.dir.clone(),
        range: hcl_span_to_lsp_range(&doc.rope, s.expect("span")).expect("range"),
    }
}

fn segment(o: &Operator) -> Option<&Ident> {
    match &o.kind {
        TraversalOperator::GetAttr(i) => Some(i),
        _ => None,
    }
}

/// The reference that a traversal is, and the end of the last segment of its address.
fn reference(t: &Traversal) -> Option<(ReferenceKind, usize)> {
    let root = match &t.expr.kind {
        ExprKind::Variable(v) => v.as_str(),
        _ => return None,
    };
    let first = segment(t.operators.first()?)?;
    let end = first.span?.end;
    let name = first.text.clone();
    match root {
        "var" => Some((ReferenceKind::Variable { name }, end)),
        "local" => Some((ReferenceKind::Local { name }, end)),
        "module" => Some((ReferenceKind::Module { name }, end)),
        "data" => {
            let second = segment(t.operators.get(1)?)?;
            Some((
                ReferenceKind::DataSource { resource_type: name, name: second.text.clone() },
                second.span?.end,
            ))
        }
        "each" | "count" | "path" | "self" => None,
        ty => Some((ReferenceKind::Resource { resource_type: ty.to_string(), name }, end)),
    }
}

/// A document with its symbols and references filled in.
fn indexed(address: &str, src: &str) -> DocumentState {
    let mut doc = document(address, src);
    let body = parse(src);
    for s in &body.structures {
        let b = match s {
            Structure::Block(b) => b,
            Structure::Attribute(_) => continue,
        };
        let at = location(&doc, b.span);
        let label = |i: usize| b.labels.get(i).map(|l| l.text.clone()).unwrap_or_default();
        let symbol = Symbol { name: label(0), location: at.duplicate(), doc: None };
        let resource =
            ResourceSymbol { resource_type: label(0), name: label(1), location: at.duplicate() };
        match b.ident.text.as_str() {
            "variable" => doc.symbols.variables.push(symbol),
            "output" => doc.symbols.outputs.push(symbol),
            "module" => {
                for a in &b.body.structures {
                    if let Structure::Attribute(a) = a {
                        if let (true, ExprKind::Str(v)) = (a.key.text == "source", &a.value.kind) {
                            doc.symbols.module_sources.push((label(0), v.clone()));
                        }
                    }
                }
                doc.symbols.modules.push(symbol)
            }
            "resource" => doc.symbols.resources.push(resource),
            "data" => doc.symbols.data_sources.push(resource),
            "locals" => {
                for a in &b.body.structures {
                    if let Structure::Attribute(a) = a {
                        let at = location(&doc, a.span);
                        doc.symbols.locals.push(Symbol {
                            name: a.key.text.clone(),
                            location: at,
                            doc: None,
                        });
                    }
                }
            }
            _ => {}
        }
    }
    for e in walk_expressions(&body) {
        if let ExprKind::Traversal(t) = &e.kind {
            if let Some((kind, end)) = reference(t) {
                let start = t.expr.span.expect("span").start;
                let at = location(&doc, Some(Span { start, end }));
                doc.references.push(Reference { kind, location: at });
            }
        }
    }
    doc
}

fn note(index: &mut Vec<SymbolIndex>, key: SymbolKey, at: SymbolLocation) {
    for e in index.iter_mut() {
        if e.key.same(&key) {
            e.locations.push(at);
            return;
        }
    }
    index.push(SymbolIndex { key, locations: vec![at] });
}

fn workspace(documents: Vec<DocumentState>) -> StateStore {
    let mut defs = Vec::new();
    let mut refs = Vec::new();
    for d in &documents {
        let named = [
            (SymbolKind::Variable, &d.symbols.variables),
            (SymbolKind::Local, &d.symbols.locals),
            (SymbolKind::Output, &d.symbols.outputs),
            (SymbolKind::Module, &d.symbols.modules),
        ];
        for (kind, list) in named {
            for s in list {
                note(&mut defs, SymbolKey::new(kind, &s.name), s.location.duplicate());
            }
        }
        let typed = [
            (SymbolKind::Resource, &d.symbols.resources),
            (SymbolKind::DataSource, &d.symbols.data_sources),
        ];
        for (kind, list) in typed {
            for s in list {
                let key = SymbolKey::resource(kind, &s.resource_type, &s.name);
                note(&mut defs, key, s.location.duplicate());
            }
        }
        for r in &d.references {
            note(&mut refs, tfls_lsp::state::reference_key(&r.kind), r.location.duplicate());
        }
    }
    let mut state = store(documents);
    state.definitions_by_name = defs;
    state.references_by_name = refs;
    state
}

/// The position of the `n`th character behind the first occurrence of `needle`.
fn at(src: &str, needle: &str, n: usize) -> Position {
    let offset = src.find(needle).expect("needle") + n;
    let line = src[..offset].matches('\n').count();
    let start = src[..offset].rfind('\n').map_or(0, |i| i + 1);
    Position::new(line as u32, (offset - start) as u32)
}

fn apply(src: &str, edits: &[TextEdit]) -> String {
    let rope = Rope::from_str(src);
    let mut spans: Vec<(usize, usize, &str)> = edits
        .iter()
        .map(|e| {
            (
                lsp_position_to_byte_offset(&rope, e.range.start).expect("start"),
                lsp_position_to_byte_offset(&rope, e.range.end).expect("end"),
                e.new_text.as_str(),
            )
        })
        .collect();
    spans.sort();
    let mut out = src.to_string();
    for (a, b, t) in spans.into_iter().rev() {
        out.replace_range(a..b, t);
    }
    out
}

fn edits_for<'a>(m: &'a EditMap, address: &str) -> &'a [TextEdit] {
    m.entries.iter().find(|(u, _)| u == address).map_or(&[], |(_, e)| e.as_slice())
}


fn text(s: &str) -> String {
    s.to_string()
}

/// The files of a workspace after an edit, by their URI.
fn after(files: &[(&str, &str)], edit: &WorkspaceEdit) -> BTreeMap<String, String> {
    let mut out: BTreeMap<String, String> =
        files.iter().map(|(u, t)| (u.to_string(), t.to_string())).collect();
    let name = |f: &FileRef| match f {
        FileRef::Uri(u) => u.clone(),
        FileRef::InDir { dir, file_name } => format!("file://{dir}/{file_name}"),
    };
    let mut put = |f: String, edits: &[TextEdit]| {
        let old = out.get(&f).cloned().unwrap_or_default();
        out.insert(f, apply(&old, edits));
    };
    match edit {
        WorkspaceEdit::Changes(m) => {
            for (u, e) in &m.entries {
                put(u.clone(), e);
            }
        }
        WorkspaceEdit::FileChanges(FileEdits { file, edits }) => put(name(file), edits),
        WorkspaceEdit::Operations(ops) => {
            for op in ops {
                match op {
                    DocumentOp::Create(_) => {}
                    DocumentOp::Edit(FileEdits { file, edits }) => put(name(file), edits),
                }
            }
        }
    }
    for (f, t) in &out {
        assert!(hcl_edit::parser::parse_body(t).is_ok(), "{f}: {t}");
    }
    out
}

fn actions_at(state: &StateStore, address: &str, here: Position) -> Vec<CodeAction> {
    let params = CodeActionParams {
        range: Range { start: here, end: here },
        diagnostics: Vec::new(),
        formatted_selection: None,
        gates: Vec::new(),
    };
    code_action(state, &uri(address), &params).unwrap_or_default()
}

fn find<'a>(actions: &'a [CodeAction], part: &str, kind: &str) -> &'a CodeAction {
    actions
        .iter()
        .find(|a| a.title.contains(part) && a.kind.starts_with(kind))
        .unwrap_or_else(|| {
            panic!(
                "no {part:?} in {:?}",
                actions.iter().map(|a| (&a.title, &a.kind)).collect::<Vec<_>>()
            )
        })
}

#[test]
fn null_resource_becomes_terraform_data() {
    let src = "resource \"null_resource\" \"a\" {\n  triggers = {\n    x = 1\n  }\n}\n\noutput \"o\" {\n  value = null_resource.a.id\n}\n";
    let mut doc = indexed("file:///m/main.tf", src);
    doc.supports_terraform_data = true;
    let state = workspace(vec![doc]);
    let actions = actions_at(&state, "file:///m/main.tf", at(src, "null_resource", 2));
    let fix = find(&actions, "terraform_data", "quickfix");
    let files = after(&[("file:///m/main.tf", src)], &fix.edit);
    let main = &files["file:///m/main.tf"];
    assert!(main.contains("resource \"terraform_data\" \"a\""), "{main}");
    assert!(main.contains("triggers_replace = {"), "{main}");
    assert!(main.contains("value = terraform_data.a.id"), "{main}");
    assert!(!main.contains("null_resource"), "{main}");
    let moved: String = files.iter().filter(|(f, _)| f.ends_with("moved.tf")).map(|(_, t)| t.clone()).collect();
    assert!(moved.contains("from = null_resource.a"), "{files:?}");
    assert!(moved.contains("terraform_data.a"), "{files:?}");
}

#[test]
fn null_resource_is_kept_for_old_tools() {
    let src = "resource \"null_resource\" \"a\" {}\n";
    let state = workspace(vec![indexed("file:///m/main.tf", src)]);
    let actions = actions_at(&state, "file:///m/main.tf", at(src, "null_resource", 2));
    assert!(actions.iter().all(|a| !a.title.contains("terraform_data")));
}

#[test]
fn template_file_becomes_a_local() {
    let src = "data \"template_file\" \"t\" {\n  template = file(\"x.tpl\")\n  vars = {\n    a = 1\n  }\n}\n\noutput \"o\" {\n  value = data.template_file.t.rendered\n}\n";
    let mut doc = indexed("file:///m/main.tf", src);
    doc.supports_templatefile = true;
    let state = workspace(vec![doc]);
    let actions = actions_at(&state, "file:///m/main.tf", at(src, "template_file", 2));
    let fix = find(&actions, "template", "quickfix");
    let files = after(&[("file:///m/main.tf", src)], &fix.edit);
    let all: String = files.values().cloned().collect();
    assert!(all.contains("templatefile(\"x.tpl\""), "{files:?}");
    assert!(all.contains("local.t"), "{files:?}");
    assert!(!all.contains("data.template_file"), "{files:?}");
}

#[test]
fn names_that_are_moved_already_are_not_moved_again() {
    let src = "resource \"null_resource\" \"a\" {\n}\n\nmoved {\n  from = null_resource.a\n  to   = terraform_data.a\n}\n";
    let mut doc = indexed("file:///m/main.tf", src);
    doc.supports_terraform_data = true;
    let state = workspace(vec![doc]);
    let actions = actions_at(&state, "file:///m/main.tf", at(src, "null_resource", 2));
    let fix = find(&actions, "terraform_data", "quickfix");
    let files = after(&[("file:///m/main.tf", src)], &fix.edit);
    let all: String = files.values().cloned().collect();
    assert!(all.contains("resource \"terraform_data\" \"a\""), "{files:?}");
    assert_eq!(all.matches("moved {").count(), 1, "{files:?}");
}

#[test]
fn each_day_follows_the_one_before() {
    let days = [(1999, 12, 31), (2000, 1, 1), (2000, 1, 2)];
    for pair in days.windows(2) {
        let (a, b) = (pair[0], pair[1]);
        let first = days_from_civil(a.0, a.1, a.2).expect("day");
        assert_eq!(days_from_civil(b.0, b.1, b.2), Some(first + 1));
    }
    let last = days_from_civil(2000, 2, 29).expect("leap day");
    assert_eq!(days_from_civil(2000, 3, 1), Some(last + 1));
    let last = days_from_civil(1900, 2, 28).expect("day");
    assert_eq!(days_from_civil(1900, 3, 1), Some(last + 1));
}

#[test]
fn safe_names_are_kept() {
    let once = sanitise("registry.example.com/a b:c");
    assert_eq!(sanitise(&once), once);
}

#[test]
fn outputs_move_to_their_own_file() {
    let src = "output \"a\" {\n  value = 1\n}\n\nlocals {\n  x = 1\n}\n";
    let state = workspace(vec![indexed("file:///m/main.tf", src)]);
    let actions = actions_at(&state, "file:///m/main.tf", at(src, "output", 2));
    let fix = find(&actions, "outputs.tf", "");
    let files = after(&[("file:///m/main.tf", src)], &fix.edit);
    assert!(!files["file:///m/main.tf"].contains("output \"a\""));
    assert!(files["file:///m/main.tf"].contains("locals {"));
    assert!(files["file:///m/outputs.tf"].contains("output \"a\" {\n  value = 1\n}"));
}

#[test]
fn undefined_variables_are_declared() {
    let src = "locals {\n  x = var.missing\n}\n";
    let state = workspace(vec![indexed("file:///m/main.tf", src)]);
    let actions = actions_at(&state, "file:///m/main.tf", at(src, "locals", 2));
    let fix = find(&actions, "undefined", "");
    let files = after(&[("file:///m/main.tf", src)], &fix.edit);
    assert!(files["file:///m/variables.tf"].contains("variable \"missing\""), "{files:?}");
}

#[test]
fn aliased_blocks_are_renamed_with_their_references() {
    let src = "resource \"aws_alb\" \"x\" {}\n\noutput \"o\" {\n  value = aws_alb.x.arn\n}\n";
    let state = workspace(vec![indexed("file:///m/main.tf", src)]);
    let mut actions: Vec<CodeAction> = Vec::new();
    emit_block_rename_actions(&state, &Vec::new(), &uri("file:///m/main.tf"), None, &mut actions);
    let a = actions.first().expect("an action");
    let files = after(&[("file:///m/main.tf", src)], &a.edit);
    assert!(files["file:///m/main.tf"].contains("resource \"aws_lb\" \"x\""), "{files:?}");
    assert!(files["file:///m/main.tf"].contains("aws_lb.x.arn"), "{files:?}");
    assert!(!files["file:///m/main.tf"].contains("aws_alb"), "{files:?}");
}

#[test]
fn renames_are_among_the_code_actions() {
    let src = "resource \"aws_alb\" \"x\" {}\n";
    let state = workspace(vec![indexed("file:///m/main.tf", src)]);
    let actions = actions_at(&state, "file:///m/main.tf", Position::new(0, 0));
    let fix = find(&actions, "Rename 1 deprecated provider type in this file", "source.fixAll");
    let files = after(&[("file:///m/main.tf", src)], &fix.edit);
    assert!(files["file:///m/main.tf"].contains("resource \"aws_lb\" \"x\""), "{files:?}");
}

#[test]
fn moved_blocks_take_the_blank_line_with_them() {
    let src = "output \"a\" {}\n\nvariable \"b\" {}\n";
    let found = scan_blocks_of_kind(&parse(src), &Rope::from_str(src), "output");
    assert_eq!(found.len(), 1);
    assert_eq!(found[0].0, Range { start: Position::new(0, 0), end: Position::new(2, 0) });
    assert_eq!(found[0].1, "output \"a\" {}\n");
    let close = "output \"a\" {}\nvariable \"b\" {}\n";
    let found = scan_blocks_of_kind(&parse(close), &Rope::from_str(close), "output");
    assert_eq!(found[0].0.end, Position::new(1, 0));
    let last = "output \"a\" {}";
    let found = scan_blocks_of_kind(&parse(last), &Rope::from_str(last), "output");
    assert_eq!(found[0].0.end, Position::new(0, 13));
}

#[test]
fn files_have_addresses() {
    let known = FileRef::Uri(text("file:///m/main.tf"));
    assert_eq!(file_address(&known), Some(text("file:///m/main.tf")));
    let new = FileRef::InDir { dir: text("/m o"), file_name: text("moved.tf") };
    assert_eq!(file_address(&new), Some(text("file:///m%20o/moved.tf")));
    let nowhere = FileRef::InDir { dir: text("m"), file_name: text("moved.tf") };
    assert_eq!(file_address(&nowhere), None);
}

#[test]
fn old_providers_keep_their_block_names() {
    let src = "terraform {\n  required_providers {\n    aws = {\n      version = \"~> 1.0\"\n    }\n  }\n}\nresource \"aws_alb\" \"x\" {}\n";
    let state = workspace(vec![indexed("file:///m/main.tf", src)]);
    let mut actions: Vec<CodeAction> = Vec::new();
    let u = uri("file:///m/main.tf");
    let gate = |at_least: bool| {
        vec![VersionGate {
            constraint: text("~> 1.0"),
            floor: text("1.7.0"),
            outcome: GateOutcome::Minimum { at_least },
        }]
    };
    emit_block_rename_actions(&state, &gate(false), &u, None, &mut actions);
    assert!(actions.is_empty());
    emit_block_rename_actions(&state, &gate(true), &u, None, &mut actions);
    assert!(!actions.is_empty());
}

#[test]
fn unformatted_documents_get_format_actions() {
    let src = "locals {\n x = 1\n}\n";
    let mut doc = indexed("file:///m/main.tf", src);
    doc.formatted = Some(text("locals {\n  x = 1\n}\n"));
    let mut clean = indexed("file:///m/other.tf", "locals {}\n");
    clean.formatted = Some(text("locals {}\n"));
    let state = workspace(vec![doc, clean]);
    let actions = actions_at(&state, "file:///m/main.tf", Position::new(0, 0));
    let fix = find(&actions, "Format file", "source.fixAll");
    let files = after(&[("file:///m/main.tf", src)], &fix.edit);
    assert_eq!(files["file:///m/main.tf"], "locals {\n  x = 1\n}\n");
    let module = find(&actions, "Format 1 .tf file in this module", "");
    assert_eq!(module.kind, "source.fixAll.terraform-ls-rs.format.module");
    let clean_only = actions_at(&state, "file:///m/other.tf", Position::new(0, 0));
    assert!(clean_only.iter().all(|a| a.title != "Format file"));
}

// ---------------------------------------------------------------------
// Git sources

const GIT: &str = "module \"m\" {\n  source = \"git::ssh://h/o/r?ref=main\"\n}\n";

fn git_facts(reference: &str) -> SourceFacts {
    let raw = "git::ssh://h/o/r?ref=main";
    let start = raw.find("main").unwrap();
    SourceFacts {
        is_git: true,
        reference: Some(text(reference)),
        ref_span: Some((start, start + 4)),
        is_sha: false,
        has_comment: false,
        comment_tag: None,
    }
}

#[test]
fn mutable_refs_are_pinned_and_kept_as_comments() {
    let rope = Rope::from_str(GIT);
    let here = at(GIT, "git::", 3);
    let diag = Diagnostic {
        range: Range { start: here, end: here },
        severity: Some(DiagnosticSeverity::Warning),
        source: Some(text("terraform-ls-rs")),
        message: text("module is pinned to a mutable ref"),
    };
    let sha = Some(text("0123456789abcdef0123456789abcdef01234567"));
    let u = uri("file:///m/main.tf");
    let action =
        pin_ref_action(true, &u, &diag, &parse(GIT), &rope, &git_facts("main"), &sha).expect("pin");
    let files = after(&[("file:///m/main.tf", GIT)], &action.edit);
    assert_eq!(
        files["file:///m/main.tf"],
        "module \"m\" {\n  source = \"git::ssh://h/o/r?ref=0123456789abcdef0123456789abcdef01234567\" # main\n}\n"
    );
    assert!(pin_ref_action(true, &u, &diag, &parse(GIT), &rope, &git_facts("main"), &None).is_none());
    assert!(pin_ref_action(false, &u, &diag, &parse(GIT), &rope, &git_facts("main"), &sha).is_none());
}

#[test]
fn newer_versions_are_offered() {
    let rope = Rope::from_str(GIT);
    let newer = vec![
        NewerTag { tag: text("v2.0.0"), sha: None, major: Some(2) },
        NewerTag { tag: text("v1.9.0"), sha: None, major: Some(1) },
    ];
    let actions = switch_version_actions(
        true,
        &uri("file:///m/main.tf"),
        at(GIT, "git::", 3),
        &parse(GIT),
        &rope,
        None,
        &git_facts("main"),
        &newer,
        Some(1),
    );
    assert!(actions.len() <= 2);
    for (i, a) in actions.iter().enumerate() {
        assert!(actions[..i].iter().all(|b| b.title != a.title));
    }
}

// ---------------------------------------------------------------------
// Hover

fn word(src: &str, needle: &str) -> CursorWord {
    let start = src.find(needle).expect("needle");
    CursorWord { text: text(needle), span: Span { start, end: start + needle.len() } }
}

#[test]
fn functions_are_described_where_they_are_called() {
    let src = "locals {\n  x = max(1, 2)\n}\n";
    let doc = indexed("file:///m/main.tf", src);
    let entry = FunctionEntry {
        name: text("max"),
        label: text("max(numbers number...) number"),
        description: Some(text("The greatest.")),
        parameters: vec![FunctionParameter {
            name: text("numbers"),
            type_label: text("number"),
            description: Some(text("what to compare")),
        }],
        variadic_parameter: None,
    };
    let w = word(src, "max");
    let hover = function_hover(&doc, at(src, "max", 1), Some(&w), Some(&entry), None).expect("hover");
    assert!(hover.value.contains("max(numbers number...) number"), "{}", hover.value);
    assert!(hover.value.contains("The greatest."), "{}", hover.value);
    assert!(hover.value.contains("what to compare"), "{}", hover.value);
}

#[test]
fn named_values_and_type_keywords_are_described() {
    let src = "resource \"a\" \"b\" {\n  x = each.key\n}\nvariable \"v\" {\n  type = string\n}\n";
    let doc = indexed("file:///m/main.tf", src);
    let values = vec![
        NamedValue { head: text("each"), attr: None, description: text("the iteration") },
        NamedValue { head: text("each"), attr: Some(text("key")), description: text("the key") },
    ];
    let w = word(src, "each");
    let hover = named_value_hover(&doc, at(src, "each", 1), &values, Some(&w), None).expect("hover");
    assert!(hover.value.contains("the"), "{}", hover.value);
    let keywords = vec![(text("string"), text("A text."))];
    let w = word(src, "string");
    let here = at(src, "string", 1);
    let hover = type_constraint_hover(&doc, here, &keywords, Some(&w), true).expect("hover");
    assert!(hover.value.contains("A text."), "{}", hover.value);
    assert!(type_constraint_hover(&doc, here, &keywords, Some(&w), false).is_none());
}

// ---------------------------------------------------------------------
// Commands and changes

#[test]
fn commands_name_what_is_to_be_run() {
    let dir = vec![Json::Str(text("/m"))];
    match execute_command("terraform-ls-rs.initWorkspace", &dir) {
        CommandPlan::RunCli { dir, args } => {
            assert_eq!(dir, "/m");
            assert_eq!(args, vec!["init", "-backend=false"]);
        }
        other => panic!("unexpected {other:?}"),
    }
    let object = vec![Json::Object(vec![(text("workingDirectory"), Json::Str(text("/w")))])];
    match execute_command("terraform-ls-rs.fetchSchemas", &object) {
        CommandPlan::FetchSchemas { dir } => assert_eq!(dir, "/w"),
        other => panic!("unexpected {other:?}"),
    }
    for (command, args, part) in [
        ("terraform-ls-rs.validate", Vec::new(), "missing argument"),
        ("terraform-ls-rs.nope", dir, "unknown command: terraform-ls-rs.nope"),
    ] {
        match execute_command(command, &args) {
            CommandPlan::InvalidParams(m) => assert!(m.contains(part), "{m}"),
            other => panic!("unexpected {other:?}"),
        }
    }
    assert!(cli_timeout(0) > 0);
    let report = cli_report(
        "terraform",
        60,
        Some(CliOutcome::Done { code: Some(1), stdout: text("out"), stderr: text("err") }),
    );
    match report {
        CliReport::Finished { status, stdout, stderr } => {
            assert_eq!((status, stdout.as_str(), stderr.as_str()), (1, "out", "err"));
        }
        _ => panic!("expected the outcome"),
    }
    match cli_report("terraform", 60, Some(CliOutcome::TimedOut)) {
        CliReport::InternalError(m) => assert!(m.contains("60"), "{m}"),
        _ => panic!("expected an error"),
    }
}

#[test]
fn changes_publish_once_and_reach_peers() {
    let plan = did_change(&ApplyOutcome::Applied(3), Some(1), Some(1), Some(3));
    assert_eq!((plan.publish_own, plan.publish_peers), (Some(3), false));
    let plan = did_change(&ApplyOutcome::Applied(3), Some(1), Some(2), Some(4));
    assert_eq!((plan.publish_own, plan.publish_peers), (None, true));
    let plan = did_change(&ApplyOutcome::Stale, Some(1), Some(2), Some(4));
    assert_eq!((plan.publish_own, plan.publish_peers), (None, false));
    let plan = did_change(&ApplyOutcome::Failed(text("out of range")), None, None, None);
    assert_eq!(plan.log_error.as_deref(), Some("edit apply failed: out of range"));
    assert!(did_change(&ApplyOutcome::Aborted, None, None, None).log_error.is_none());
}

#[test]
fn findings_are_published_on_open_and_cleared_on_close() {
    let found = || {
        vec![Diagnostic {
            range: Range { start: Position::new(0, 0), end: Position::new(0, 1) },
            severity: None,
            source: None,
            message: text("m"),
        }]
    };
    assert_eq!(did_open(true, found()).diagnostics.len(), 1);
    assert_eq!(did_save(false, found()).map(|p| p.diagnostics.len()), Some(1));
    assert!(did_save(true, found()).is_none());
    assert!(did_close().diagnostics.is_empty());
}

// ---------------------------------------------------------------------
// Versions

fn entry(version: &str, published: Option<&str>) -> VersionEntry {
    VersionEntry { version: text(version), published: published.map(text) }
}

#[test]
fn days_are_counted_from_the_epoch() {
    assert_eq!(days_from_civil(1970, 1, 1), Some(0));
    assert_eq!(days_from_civil(2000, 2, 29), Some(11016));
    assert_eq!(days_from_civil(2024, 12, 31), Some(20088));
    assert_eq!(days_from_civil(2024, 13, 1), None);
    assert_eq!(age_days(&Some(text("1970-01-11T00:00:00Z")), 30), Some(20));
    assert_eq!(age_days(&Some(text("not a date")), 30), None);
    assert_eq!(age_days(&None, 30), None);
}

#[test]
fn ages_are_told_in_the_largest_units() {
    assert_eq!(humanise_age(3), "3d old");
    assert_eq!(humanise_age(45), "1mo old");
    assert_eq!(humanise_age(365), "1y old");
    assert_eq!(humanise_age(800), "2y 2mo old");
}

#[test]
fn versions_are_ordered_newest_first() {
    let sorted = sort_versions_desc(&vec![
        entry("1.2.0", None),
        entry("2.0.0-beta1", None),
        entry("10.0.0", None),
        entry("2.0.0", None),
        entry("junk", None),
    ]);
    let names: Vec<&str> = sorted.iter().map(|e| e.version.as_str()).collect();
    assert_eq!(names, vec!["10.0.0", "2.0.0", "2.0.0-beta1", "1.2.0", "junk"]);
}

#[test]
fn merged_lists_keep_the_first_of_a_version() {
    let merged = merge_versions(&vec![
        vec![entry("1.0.0", Some("2020-01-01")), entry("2.0.0", None)],
        vec![entry("1.0.0", None), entry("3.0.0", None)],
    ])
    .expect("some");
    let names: Vec<&str> = merged.iter().map(|e| e.version.as_str()).collect();
    assert_eq!(names, vec!["3.0.0", "2.0.0", "1.0.0"]);
    assert_eq!(merged[2].published.as_deref(), Some("2020-01-01"));
    assert!(merge_versions(&vec![Vec::new()]).is_none());
    let dated = with_dates(
        &vec![text("1.0.0"), text("2.0.0")],
        &vec![
            vec![(text("1.0.0"), text("a"))],
            vec![(text("1.0.0"), text("b")), (text("2.0.0"), text("c"))],
        ],
    );
    assert_eq!(dated[0].published.as_deref(), Some("a"));
    assert_eq!(dated[1].published.as_deref(), Some("c"));
}

fn listed(r: &Option<Vec<VersionEntry>>) -> Vec<(&str, Option<&str>)> {
    r.iter().flatten().map(|e| (e.version.as_str(), e.published.as_deref())).collect()
}

#[test]
fn cached_provider_versions_are_read_with_their_dates() {
    let lists = vec![
        Some(text("[\"1.0.0\", \"2.0.0\"]")),
        Some(text("[\"3.0.0\", \"2.0.0\"]")),
    ];
    let dates = vec![
        Some(text("{\"2.0.0\": \"first\"}")),
        Some(text("{\"2.0.0\": \"second\", \"1.0.0\": \"other\"}")),
    ];
    let found = provider_entries(&lists, &dates);
    assert_eq!(
        listed(&found),
        vec![("3.0.0", None), ("2.0.0", Some("first")), ("1.0.0", Some("other"))]
    );
    let found = provider_entries(&vec![None, Some(text("[\"1.0.0\"]"))], &vec![Some(text("[]"))]);
    assert_eq!(listed(&found), vec![("1.0.0", None)]);
    assert!(provider_entries(&vec![None, Some(text("{}"))], &dates).is_none());
}

#[test]
fn cached_module_and_tool_versions_are_read() {
    let found = module_entries(&vec![Some(text("[\"1.0.0\"]")), Some(text("[\"1.1.0\", 2]"))]);
    assert_eq!(listed(&found), vec![("1.0.0", None)]);
    let found = tool_entries(&vec![
        ToolList::Dated(vec![entry("1.0.0", Some("2020-01-01"))]),
        ToolList::Text(text("[\"1.0.0\", \"1.2.0\"]")),
        ToolList::Text(text("not a list")),
    ]);
    assert_eq!(listed(&found), vec![("1.2.0", None), ("1.0.0", Some("2020-01-01"))]);
    assert!(tool_entries(&Vec::new()).is_none());
}

#[test]
fn cache_files_have_safe_names() {
    assert_eq!(sanitise("a/b c"), "a_b_c");
    assert_eq!(sanitise("é-1.0_x"), "é-1.0_x");
    let paths = cache_paths(&VersionSource::Provider { namespace: text("a/b"), name: text("aws") });
    assert_eq!(
        paths.versions[1],
        vec!["registry-versions", "opentofu", "a_b", "aws", "versions.json"]
    );
    assert_eq!(paths.dates.len(), 2);
    assert_eq!(
        cache_paths(&VersionSource::TerraformCli).versions[0],
        vec!["tool-versions", "terraform.json"]
    );
}

#[test]
fn stale_versions_are_hinted() {
    let src = "terraform {\n  required_version = \"~> 1.0\"\n}\n";
    let state = workspace(vec![indexed("file:///m/main.tf", src)]);
    let ctx = VersionContext {
        stale_days: 180,
        today: 20000,
        constraints: vec![ParsedConstraint {
            raw: text("~> 1.0"),
            valid: true,
            accepts: vec![text("1.0.0")],
        }],
        versions: vec![CachedVersions {
            source: VersionSource::TerraformCli,
            entries: vec![entry("1.5.0", Some("2024-01-01")), entry("1.0.0", Some("2021-06-08"))],
        }],
    };
    let visible = Range { start: Position::new(0, 0), end: Position::new(9, 0) };
    let hints = inlay_hint(&state, &uri("file:///m/main.tf"), &visible, &ctx).unwrap_or_default();
    assert_eq!(hints.len(), 1, "{hints:?}");
    assert_eq!(hints[0].position.line, 1);
}

// ---------------------------------------------------------------------
// Links and provider names

fn empty_block() -> BlockSchema {
    BlockSchema {
        attributes: Vec::new(),
        block_types: Vec::new(),
        description: None,
        deprecated: false,
    }
}

#[test]
fn types_link_to_their_documentation() {
    let src = "resource \"aws_instance\" \"web\" {}\n";
    let mut state = workspace(vec![indexed("file:///m/main.tf", src)]);
    state.schemas.push(SchemaEntry {
        address: ProviderAddress {
            hostname: text("registry.terraform.io"),
            namespace: text("hashicorp"),
            ty: text("aws"),
        },
        schema: ProviderSchema {
            provider: ResourceSchema { block: empty_block() },
            resource_schemas: vec![(text("aws_instance"), ResourceSchema { block: empty_block() })],
            data_source_schemas: Vec::new(),
        },
    });
    let links = document_link(&state, &uri("file:///m/main.tf")).expect("links");
    assert_eq!(links.len(), 1);
    assert_eq!(
        links[0].target,
        "https://registry.terraform.io/providers/hashicorp/aws/latest/docs/resources/aws_instance"
    );
    state.schemas[0].address.hostname = text("private.example.com");
    assert!(document_link(&state, &uri("file:///m/main.tf")).map_or(true, |l| l.is_empty()));
}

#[test]
fn provider_names_are_renamed_with_their_calls() {
    let versions = "terraform {\n  required_providers {\n    aws = {\n      source = \"hashicorp/aws\"\n    }\n  }\n}\n";
    let calls = "locals {\n  a = provider::aws::arn_parse(1)\n}\n";
    let mut used = indexed("file:///m/calls.tf", calls);
    used.function_locals = vec![text("aws")];
    let state = workspace(vec![indexed("file:///m/versions.tf", versions), used]);
    let edits =
        rename(&state, &uri("file:///m/calls.tf"), at(calls, "aws", 1), "aws_v6").expect("edits");
    assert_eq!(
        apply(versions, edits_for(&edits, "file:///m/versions.tf")),
        versions.replace("    aws =", "    aws_v6 =")
    );
    assert_eq!(
        apply(calls, edits_for(&edits, "file:///m/calls.tf")),
        calls.replace("::aws::", "::aws_v6::")
    );
}

#[test]
fn commands_are_announced_in_order() {
    assert_eq!(COMMANDS, [CMD_INIT_WORKSPACE, CMD_FETCH_SCHEMAS, CMD_VALIDATE]);
    assert_eq!(
        command_names(),
        vec![
            "terraform-ls-rs.initWorkspace",
            "terraform-ls-rs.fetchSchemas",
            "terraform-ls-rs.validate",
        ]
    );
}

#[test]
fn variable_search_ends_at_an_attribute() {
    let found = |src: &str| find_variable_block(&parse(src), "a").is_some();
    assert!(found("locals {\n  x = 1\n}\nvariable \"b\" {}\nvariable \"a\" {}\n"));
    assert!(!found("x = 1\nvariable \"a\" {}\n"));
    assert!(found("variable \"a\" {}\nx = 1\n"));
    assert!(!found("variable {}\nvariable \"a\" {}\n"));
    assert!(!found("variable \"b\" {}\n"));
}
