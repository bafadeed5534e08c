use hcl_edit::expr::{Expression as HclExpr, ObjectKey as HclKey, TraversalOperator as HclOp};
use hcl_edit::repr::Span as NodeSpan;
use hcl_edit::structure::{Body as HclBody, Structure as HclStructure};
use hcl_edit::template::{Directive, Element as HclElement, Template};
use ropey::Rope;
use tfls_lsp::actions::{CodeAction, Diagnostic, DiagnosticSeverity, EditMap, WorkspaceEdit};
use tfls_lsp::builtin::{
    BuiltinAttr, BuiltinBlock, BuiltinEntry, BuiltinSchema, CommonProvider, ConstraintOp, Language,
    MetaBlock, OperatorEntry, RequiredAttr,
};
use tfls_lsp::code_action::{code_action, CodeActionParams};
use tfls_lsp::completion::{completion, CompletionContext, CompletionParams, Fetched};
use tfls_lsp::completion_item::CompletionItem;
use tfls_lsp::completion_shapes::{IndexRootRef, MergedShapes, PathStep};
use tfls_lsp::completion_sources::{CachedMinor, CatalogEntry};
use tfls_lsp::completion_versions::{CursorSlot, PublishedVersion};
use tfls_lsp::cursor::{find_symbol_at_cursor, CursorKind};
use tfls_lsp::document::{cross_file_fingerprint, cross_file_tokens};
use tfls_lsp::folding::{folding_range, selection_range};
use tfls_lsp::hcl::{
    walk_expressions, Attribute, BinaryOp, Block, BlockLabel, Body, Conditional, Element,
    ExprKind, Expression, ForExpr, FuncCall, Ident, ObjectItem, ObjectKey, Operator, Structure,
    Traversal, TraversalOperator,
};
use tfls_lsp::highlight::{document_highlight, HighlightKind};
use tfls_lsp::hover_request::{hover, CallContext};
use tfls_lsp::navigation::{goto_definition, references, GotoTarget};
use tfls_lsp::position::{
    hcl_span_to_lsp_range, lsp_position_to_byte_offset, slice_text, Position, Range, Span,
    TextEdit,
};
use tfls_lsp::provider_fn::provider_function_call_diagnostics;
use tfls_lsp::rename::{prepare_rename, rename};
use tfls_lsp::schema::{
    AttributeSchema, BlockSchema, Json, NestedBlockSchema, NestingMode, ProviderAddress,
    ProviderSchema, ResourceSchema, SchemaEntry,
};
use tfls_lsp::state::{
    DocUri, DocumentState, FunctionEntry, ModuleDir, Reference, ReferenceKind, ResourceSymbol,
    StateStore, Symbol, SymbolIndex, SymbolKey, SymbolKind, SymbolLocation, SymbolTable,
};
use tfls_lsp::variable_type::{InferredType, Primitive, VariableType};

fn span(s: Option<std::ops::Range<usize>>) -> Option<Span> {
    s.map(|r| Span { start: r.start, end: r.end })
}

fn exprs_of(t: &Template, out: &mut Vec<Expression>) {
    for e in t.iter() {
        match e {
            HclElement::Literal(_) => {}
            HclElement::Interpolation(i) => out.push(expr(&i.expr)),
            HclElement::Directive(d) => directive(d, out),
        }
    }
}

fn directive(d: &Directive, out: &mut Vec<Expression>) {
    match d {
        Directive::If(i) => {
            out.push(expr(&i.if_expr.cond_expr));
            exprs_of(&i.if_expr.template, out);
            if let Some(e) = &i.else_expr {
                exprs_of(&e.template, out);
            }
        }
        Directive::For(f) => {
            out.push(expr(&f.for_expr.collection_expr));
            exprs_of(&f.for_expr.template, out);
        }
    }
}

fn element(e: &HclElement) -> Element {
    match e {
        HclElement::Literal(s) => Element::Literal(s.as_str().to_string()),
        HclElement::Interpolation(i) => Element::Interpolation(expr(&i.expr)),
        HclElement::Directive(d) => {
            let mut v = Vec::new();
            directive(d, &mut v);
            Element::Directive(v)
        }
    }
}

fn expr(e: &HclExpr) -> Expression {
    let kind = match e {
        HclExpr::Null(_) => ExprKind::Null,
        HclExpr::Bool(b) => ExprKind::Bool(**b),
        HclExpr::Number(n) => ExprKind::Number(n.value().to_string()),
        HclExpr::String(s) => ExprKind::Str(s.as_str().to_string()),
        HclExpr::Array(a) => ExprKind::Array(a.iter().map(expr).collect()),
        HclExpr::Object(o) => ExprKind::Object(
            o.iter()
                .map(|(k, v)| ObjectItem {
                    key: match k {
                        HclKey::Ident(i) => ObjectKey::Ident(Ident {
                            text: i.as_str().to_string(),
                            span: span(i.span()),
                        }),
                        HclKey::Expression(e) => ObjectKey::Expression(expr(e)),
                    },
                    value: expr(v.expr()),
                })
                .collect(),
        ),
        HclExpr::StringTemplate(t) => ExprKind::StringTemplate(t.iter().map(element).collect()),
        HclExpr::HeredocTemplate(t) => {
            ExprKind::HeredocTemplate(t.template.iter().map(element).collect())
        }
        HclExpr::Parenthesis(p) => ExprKind::Parenthesis(Box::new(expr(p.inner()))),
        HclExpr::Variable(v) => ExprKind::Variable(v.as_str().to_string()),
        HclExpr::Conditional(c) => ExprKind::Conditional(Box::new(Conditional {
            cond_expr: expr(&c.cond_expr),
            true_expr: expr(&c.true_expr),
            false_expr: expr(&c.false_expr),
        })),
        HclExpr::FuncCall(f) => ExprKind::FuncCall(FuncCall {
            namespace: f
                .name
                .namespace
                .iter()
                .map(|i| Ident { text: i.as_str().to_string(), span: span(i.span()) })
                .collect(),
            name: Ident {
                text: f.name.name.as_str().to_string(),
                span: span(f.name.name.span()),
            },
            args: f.args.iter().map(expr).collect(),
        }),
        HclExpr::Traversal(t) => ExprKind::Traversal(Box::new(Traversal {
            expr: expr(&t.expr),
            operators: t
                .operators
                .iter()
                .map(|o| Operator {
                    kind: match o.value() {
                        HclOp::AttrSplat(_) => TraversalOperator::AttrSplat,
                        HclOp::FullSplat(_) => TraversalOperator::FullSplat,
                        HclOp::GetAttr(i) => TraversalOperator::GetAttr(Ident {
                            text: i.as_str().to_string(),
                            span: span(i.span()),
                        }),
                        HclOp::Index(e) => TraversalOperator::Index(expr(e)),
                        HclOp::LegacyIndex(n) => TraversalOperator::LegacyIndex(**n),
                    },
                    span: span(o.span()),
                })
                .collect(),
        })),
        HclExpr::UnaryOp(u) => ExprKind::UnaryOp(Box::new(expr(&u.expr))),
        HclExpr::BinaryOp(b) => ExprKind::BinaryOp(Box::new(BinaryOp {
            lhs_expr: expr(&b.lhs_expr),
            rhs_expr: expr(&b.rhs_expr),
        })),
        HclExpr::ForExpr(f) => ExprKind::ForExpr(Box::new(ForExpr {
            collection_expr: expr(&f.intro.collection_expr),
            key_expr: f.key_expr.as_ref().map(expr),
            value_expr: expr(&f.value_expr),
            cond_expr: f.cond.as_ref().map(|c| expr(&c.expr)),
        })),
    };
    Expression { kind, span: span(e.span()) }
}

fn tree(b: &HclBody) -> Body {
    Body {
        structures: b
            .iter()
            .map(|s| match s {
                HclStructure::Attribute(a) => Structure::Attribute(Attribute {
                    key: Ident { text: a.key.as_str().to_string(), span: span(a.key.span()) },
                    value: expr(&a.value),
                    span: span(a.span()),
                }),
                HclStructure::Block(b) => Structure::Block(Block {
                    ident: Ident { text: b.ident.as_str().to_string(), span: span(b.ident.span()) },
                    labels: b
                        .labels
                        .iter()
                        .map(|l| BlockLabel {
                            text: l.as_str().to_string(),
                            quoted: l.is_string(),
                            span: span(l.span()),
                        })
                        .collect(),
                    body: tree(&b.body),
                    span: span(b.span()),
                }),
            })
            .collect(),
        span: span(b.span()),
    }
}

fn parse(src: &str) -> Body {
    tree(&hcl_edit::parser::parse_body(src).expect("parses"))
}

fn uri(text: &str) -> DocUri {
    let path = text.strip_prefix("file://").unwrap_or(text).to_string();
    let (dir, name) = match path.rsplit_once('/') {
        Some((d, n)) => (d.to_string(), n.to_string()),
        None => (String::new(), path.clone()),
    };
    DocUri { text: text.to_string(), path, dir: Some(dir), file_name: Some(name) }
}

fn no_symbols() -> SymbolTable {
    SymbolTable {
        variables: Vec::new(),
        locals: Vec::new(),
        outputs: Vec::new(),
        modules: Vec::new(),
        resources: Vec::new(),
        data_sources: Vec::new(),
        module_sources: Vec::new(),
        variable_types: Vec::new(),
        variable_defaults: Vec::new(),
        local_shapes: Vec::new(),
        for_each_shapes: Vec::new(),
        data_source_for_each_shapes: Vec::new(),
        module_for_each_shapes: Vec::new(),
    }
}

fn document(address: &str, src: &str) -> DocumentState {
    DocumentState {
        uri: uri(address),
        rope: Rope::from_str(src),
        body: Some(parse(src)),
        version: 1,
        symbols: no_symbols(),
        references: Vec::new(),
        formatted: None,
        interpolation_ranges: Vec::new(),
        lookup_ranges: Vec::new(),
        supports_terraform_data: false,
        supports_templatefile: false,
        function_locals: Vec::new(),
    }
}

fn store(documents: Vec<DocumentState>) -> StateStore {
    StateStore {
        documents,
        disk: Vec::new(),
        schemas: Vec::new(),
        assigned_types: Vec::new(),
        definitions_by_name: Vec::new(),
        references_by_name: Vec::new(),
        functions: Vec::new(),
        module_dirs: Vec::new(),
    }
}


fn location(doc: &DocumentState, s: Option<Span>) -> SymbolLocation {
    SymbolLocation {
        uri: doc.uri.text.clone(),
        dir: doc.uri.dir.clone(),
        range: hcl_span_to_lsp_range(&doc.rope, s.expect("span")).expect("range"),
    }
}

fn segment(o: &Operator) -> Option<&Ident> {
    match &o.kind {
        TraversalOperator::GetAttr(i) => Some(i),
        _ => None,
    }
}

/// The reference that a traversal is, and the end of the last segment of its address.
fn reference(t: &Traversal) -> Option<(ReferenceKind, usize)> {
    let root = match &t.expr.kind {
        ExprKind::Variable(v) => v.as_str(),
        _ => return None,
    };
    let first = segment(t.operators.first()?)?;
    let end = first.span?.end;
    let name = first.text.clone();
    match root {
        "var" => Some((ReferenceKind::Variable { name }, end)),
        "local" => Some((ReferenceKind::Local { name }, end)),
        "module" => Some((ReferenceKind::Module { name }, end)),
        "data" => {
            let second = segment(t.operators.get(1)?)?;
            Some((
                ReferenceKind::DataSource { resource_type: name, name: second.text.clone() },
                second.span?.end,
            ))
        }
        "each" | "count" | "path" | "self" => None,
        ty => Some((ReferenceKind::Resource { resource_type: ty.to_string(), name }, end)),
    }
}

/// A document with its symbols and references filled in.
fn indexed(address: &str, src: &str) -> DocumentState {
    let mut doc = document(address, src);
    let body = parse(src);
    for s in &body.structures {
        let b = match s {
            Structure::Block(b) => b,
            Structure::Attribute(_) => continue,
        };
        let at = location(&doc, b.span);
        let label = |i: usize| b.labels.get(i).map(|l| l.text.clone()).unwrap_or_default();
        let symbol = Symbol { name: label(0), location: at.duplicate(), doc: None };
        let resource =
            ResourceSymbol { resource_type: label(0), name: label(1), location: at.duplicate() };
        match b.ident.text.as_str() {
            "variable" => doc.symbols.variables.push(symbol),
            "output" => doc.symbols.outputs.push(symbol),
            "module" => {
                for a in &b.body.structures {
                    if let Structure::Attribute(a) = a {
                        if let (true, ExprKind::Str(v)) = (a.key.text == "source", &a.value.kind) {
                            doc.symbols.module_sources.push((label(0), v.clone()));
                        }
                    }
                }
                doc.symbols.modules.push(symbol)
            }
            "resource" => doc.symbols.resources.push(resource),
            "data" => doc.symbols.data_sources.push(resource),
            "locals" => {
                for a in &b.body.structures {
                    if let Structure::Attribute(a) = a {
                        let at = location(&doc, a.span);
                        doc.symbols.locals.push(Symbol {
                            name: a.key.text.clone(),
                            location: at,
                            doc: None,
                        });
                    }
                }
            }
            _ => {}
        }
    }
    for e in walk_expressions(&body) {
        if let ExprKind::Traversal(t) = &e.kind {
            if let Some((kind, end)) = reference(t) {
                let start = t.expr.span.expect("span").start;
                let at = location(&doc, Some(Span { start, end }));
                doc.references.push(Reference { kind, location: at });
            }
        }
    }
    doc
}

fn note(index: &mut Vec<SymbolIndex>, key: SymbolKey, at: SymbolLocation) {
    for e in index.iter_mut() {
        if e.key.same(&key) {
            e.locations.push(at);
            return;
        }
    }
    index.push(SymbolIndex { key, locations: vec![at] });
}

fn workspace(documents: Vec<DocumentState>) -> StateStore {
    let mut defs = Vec::new();
    let mut refs = Vec::new();
    for d in &documents {
        let named = [
            (SymbolKind::Variable, &d.symbols.variables),
            (SymbolKind::Local, &d.symbols.locals),
            (SymbolKind::Output, &d.symbols.outputs),
            (SymbolKind::Module, &d.symbols.modules),
        ];
        for (kind, list) in named {
            for s in list {
                note(&mut defs, SymbolKey::new(kind, &s.name), s.location.duplicate());
            }
        }
        let typed = [
            (SymbolKind::Resource, &d.symbols.resources),
            (SymbolKind::DataSource, &d.symbols.data_sources),
        ];
        for (kind, list) in typed {
            for s in list {
                let key = SymbolKey::resource(kind, &s.resource_type, &s.name);
                note(&mut defs, key, s.location.duplicate());
            }
        }
        for r in &d.references {
            note(&mut refs, tfls_lsp::state::reference_key(&r.kind), r.location.duplicate());
        }
    }
    let mut state = store(documents);
    state.definitions_by_name = defs;
    state.references_by_name = refs;
    state
}

/// The position of the `n`th character behind the first occurrence of `needle`.
fn at(src: &str, needle: &str, n: usize) -> Position {
    let offset = src.find(needle).expect("needle") + n;
    let line = src[..offset].matches('\n').count();
    let start = src[..offset].rfind('\n').map_or(0, |i| i + 1);
    Position::new(line as u32, (offset - start) as u32)
}

fn apply(src: &str, edits: &[TextEdit]) -> String {
    let rope = Rope::from_str(src);
    let mut spans: Vec<(usize, usize, &str)> = edits
        .iter()
        .map(|e| {
            (
                lsp_position_to_byte_offset(&rope, e.range.start).expect("start"),
                lsp_position_to_byte_offset(&rope, e.range.end).expect("end"),
                e.new_text.as_str(),
            )
        })
        .collect();
    spans.sort();
    let mut out = src.to_string();
    for (a, b, t) in spans.into_iter().rev() {
        out.replace_range(a..b, t);
    }
    out
}

fn edits_for<'a>(m: &'a EditMap, address: &str) -> &'a [TextEdit] {
    m.entries.iter().find(|(u, _)| u == address).map_or(&[], |(_, e)| e.as_slice())
}

const MAIN: &str = "variable \"region\" {}\n\nresource \"aws_instance\" \"web\" {\n  ami = var.region\n}\n\noutput \"ip\" {\n  value = aws_instance.web.public_ip\n}\n";
const OTHER: &str = "locals {\n  where = var.region\n}\n";

fn two_modules() -> StateStore {
    workspace(vec![
        indexed("file:///a/main.tf", MAIN),
        indexed("file:///a/other.tf", OTHER),
        indexed("file:///b/main.tf", "variable \"region\" {}\nlocals {\n  x = var.region\n}\n"),
    ])
}

#[test]
fn definition_is_the_one_of_the_same_module() {
    let state = two_modules();
    let found = goto_definition(&state, &uri("file:///a/other.tf"), at(OTHER, "region", 1));
    match found.expect("found") {
        GotoTarget::Many(v) => {
            assert_eq!(v.len(), 1);
            assert_eq!(v[0].uri, "file:///a/main.tf");
            assert_eq!(v[0].range.start, Position::new(0, 0));
        }
        GotoTarget::One(_) => panic!("expected a list"),
    }
    assert!(goto_definition(&state, &uri("file:///a/other.tf"), Position::new(0, 0)).is_none());
    assert!(goto_definition(&state, &uri("file:///a/none.tf"), Position::new(0, 0)).is_none());
}

#[test]
fn references_stay_in_the_module() {
    let state = two_modules();
    let u = uri("file:///a/main.tf");
    let pos = at(MAIN, "region", 1);
    let with = references(&state, &u, pos, true).expect("some");
    assert_eq!(with.len(), 3);
    assert!(with.iter().all(|l| l.uri.starts_with("file:///a/")));
    let without = references(&state, &u, pos, false).expect("some");
    assert_eq!(without.len(), 2);
    assert!(without.iter().any(|l| l.uri == "file:///a/other.tf"));
}

#[test]
fn module_input_leads_to_the_variable_of_the_child() {
    let src = "module \"net\" {\n  source = \"./net\"\n  cidr   = \"10.0.0.0/8\"\n}\noutput \"id\" {\n  value = module.net.vpc_id\n}\n";
    let child = "variable \"cidr\" {}\noutput \"vpc_id\" {\n  value = 1\n}\n";
    let mut state = workspace(vec![
        indexed("file:///a/main.tf", src),
        indexed("file:///a/net/main.tf", child),
    ]);
    state.module_dirs.push(ModuleDir {
        dir: "/a".to_string(),
        label: "net".to_string(),
        source: "./net".to_string(),
        child: "/a/net".to_string(),
    });
    let u = uri("file:///a/main.tf");
    match goto_definition(&state, &u, at(src, "cidr", 1)).expect("input") {
        GotoTarget::One(l) => {
            assert_eq!(l.uri, "file:///a/net/main.tf");
            assert_eq!(l.range.start.line, 0);
        }
        GotoTarget::Many(_) => panic!("expected one place"),
    }
    match goto_definition(&state, &u, at(src, "vpc_id", 1)).expect("output") {
        GotoTarget::One(l) => assert_eq!(l.range.start.line, 1),
        GotoTarget::Many(_) => panic!("expected one place"),
    }
}

#[test]
fn cursor_on_a_declaration_is_a_definition() {
    let state = two_modules();
    let doc = &state.documents[0];
    let target = find_symbol_at_cursor(doc, at(MAIN, "variable", 2)).expect("target");
    assert_eq!(target.kind, CursorKind::Definition);
    assert_eq!(target.key.name, "region");
    let target = find_symbol_at_cursor(doc, at(MAIN, "var.region", 5)).expect("target");
    assert_eq!(target.kind, CursorKind::Reference);
}

#[test]
fn rename_rewrites_every_use_in_the_module() {
    let state = two_modules();
    let u = uri("file:///a/main.tf");
    let pos = at(MAIN, "var.region", 5);
    let prepared = prepare_rename(&state, &u, pos).expect("prepared");
    assert_eq!(prepared.placeholder, "region");
    assert_eq!(
        slice_text(&state.documents[0].rope, prepared.range).as_deref(),
        Some("region")
    );
    let edits = rename(&state, &u, pos, "zone").expect("edits");
    assert_eq!(
        apply(MAIN, edits_for(&edits, "file:///a/main.tf")),
        MAIN.replace("region", "zone")
    );
    assert_eq!(
        apply(OTHER, edits_for(&edits, "file:///a/other.tf")),
        OTHER.replace("region", "zone")
    );
}

#[test]
fn rename_of_a_local_rewrites_its_key() {
    let src = "locals {\n  zone = local.zones\n  zones = 1\n}\noutput \"o\" {\n  value = local.zone\n}\n";
    let state = workspace(vec![indexed("file:///a/main.tf", src)]);
    let u = uri("file:///a/main.tf");
    for pos in [at(src, "local.zone\n", 7), at(src, "zone = ", 1)] {
        let edits = rename(&state, &u, pos, "area").expect("edits");
        assert_eq!(
            apply(src, edits_for(&edits, "file:///a/main.tf")),
            "locals {\n  area = local.zones\n  zones = 1\n}\noutput \"o\" {\n  value = local.area\n}\n"
        );
    }
    let p = prepare_rename(&state, &u, at(src, "zone = ", 1)).expect("key");
    assert_eq!(slice_text(&Rope::from_str(src), p.range).as_deref(), Some("zone"));
}

#[test]
fn highlight_tells_writes_from_reads() {
    let state = two_modules();
    let found =
        document_highlight(&state, &uri("file:///a/main.tf"), at(MAIN, "var.region", 5)).expect("some");
    assert_eq!(found.iter().filter(|h| h.kind == HighlightKind::Write).count(), 1);
    assert_eq!(found.iter().filter(|h| h.kind == HighlightKind::Read).count(), 1);
}

#[test]
fn folds_and_selections_follow_the_blocks() {
    let src = "resource \"a\" \"b\" {\n  x = 1\n  nested {\n    y = 2\n  }\n}\n";
    let state = workspace(vec![indexed("file:///a/main.tf", src)]);
    let u = uri("file:///a/main.tf");
    let folds = folding_range(&state, &u).expect("folds");
    let lines: Vec<(u32, u32)> = folds.iter().map(|f| (f.start_line, f.end_line)).collect();
    assert!(lines.contains(&(0, 5)) && lines.contains(&(2, 4)), "{lines:?}");
    let chain = selection_range(&state, &u, &vec![at(src, "y = 2", 0)]).expect("chain");
    let mut current = Some(&chain[0]);
    let mut depth = 0;
    let mut last: Option<Range> = None;
    while let Some(c) = current {
        if let Some(inner) = last {
            assert!(
                (c.range.start.line, c.range.start.character)
                    <= (inner.start.line, inner.start.character)
            );
            assert!(
                (inner.end.line, inner.end.character) <= (c.range.end.line, c.range.end.character)
            );
        }
        last = Some(c.range);
        depth += 1;
        current = c.parent.as_deref();
    }
    assert!(depth >= 2);
}

fn warning(range: Range, message: &str) -> Diagnostic {
    Diagnostic {
        range,
        severity: Some(DiagnosticSeverity::Warning),
        source: Some("terraform-ls-rs".to_string()),
        message: message.to_string(),
    }
}

fn titled<'a>(actions: &'a [CodeAction], start: &str) -> &'a CodeAction {
    actions
        .iter()
        .find(|a| a.title.starts_with(start))
        .unwrap_or_else(|| panic!("no action {start:?} in {:?}", actions.iter().map(|a| &a.title).collect::<Vec<_>>()))
}

fn changes(a: &CodeAction) -> &EditMap {
    match &a.edit {
        WorkspaceEdit::Changes(m) => m,
        other => panic!("expected changes, got {other:?}"),
    }
}

#[test]
fn interpolation_is_unwrapped_at_the_diagnostic_and_in_bulk() {
    let src = "locals {\n  a = \"${var.x}\"\n  b = \"${var.y}\"\n}\n";
    let mut doc = indexed("file:///a/main.tf", src);
    let first = Range { start: at(src, "\"${var.x}", 0), end: at(src, "\"\n  b", 1) };
    let second = Range { start: at(src, "\"${var.y}", 0), end: at(src, "\"\n}", 1) };
    doc.interpolation_ranges = vec![first, second];
    let state = workspace(vec![doc]);
    let params = CodeActionParams {
        range: Range { start: first.start, end: first.start },
        diagnostics: vec![warning(
            first,
            "interpolation-only expressions are deprecated; use the expression directly",
        )],
        formatted_selection: None,
        gates: Vec::new(),
    };
    let actions = code_action(&state, &uri("file:///a/main.tf"), &params).expect("actions");
    let single = actions.iter().find(|a| a.kind == "quickfix").expect("quickfix");
    assert_eq!(
        apply(src, edits_for(changes(single), "file:///a/main.tf")),
        "locals {\n  a = var.x\n  b = \"${var.y}\"\n}\n"
    );
    let bulk = titled(&actions, "Unwrap 2 ");
    assert_eq!(
        apply(src, edits_for(changes(bulk), "file:///a/main.tf")),
        "locals {\n  a = var.x\n  b = var.y\n}\n"
    );
    let titles: Vec<&String> = actions.iter().map(|a| &a.title).collect();
    for (i, t) in titles.iter().enumerate() {
        assert!(!titles[..i].contains(t), "{t} twice");
    }
}

fn attribute(required: bool, ty: &str) -> AttributeSchema {
    AttributeSchema {
        ty: Some(Json::Str(ty.to_string())),
        required,
        optional: !required,
        computed: false,
        sensitive: false,
        deprecated: false,
        description: None,
        conflicts_with: Vec::new(),
        required_with: Vec::new(),
        exactly_one_of: Vec::new(),
        at_least_one_of: Vec::new(),
        allowed_values: None,
        block_like: false,
    }
}

fn aws() -> SchemaEntry {
    let disk = NestedBlockSchema {
        nesting_mode: NestingMode::ListOf,
        block: BlockSchema {
            attributes: vec![("size".to_string(), attribute(true, "number"))],
            block_types: Vec::new(),
            description: None,
            deprecated: false,
        },
        min_items: 0,
        max_items: 1,
    };
    SchemaEntry {
        address: ProviderAddress {
            hostname: "registry.terraform.io".to_string(),
            namespace: "hashicorp".to_string(),
            ty: "aws".to_string(),
        },
        schema: ProviderSchema {
            provider: ResourceSchema {
                block: BlockSchema {
                    attributes: Vec::new(),
                    block_types: Vec::new(),
                    description: None,
                    deprecated: false,
                },
            },
            resource_schemas: vec![(
                "aws_instance".to_string(),
                ResourceSchema {
                    block: BlockSchema {
                        attributes: vec![
                            ("ami".to_string(), attribute(true, "string")),
                            ("user_data".to_string(), attribute(false, "string")),
                        ],
                        block_types: vec![("disk".to_string(), disk)],
                        description: None,
                        deprecated: false,
                    },
                },
            )],
            data_source_schemas: Vec::new(),
        },
    }
}

#[test]
fn missing_attribute_is_inserted_with_a_fitting_placeholder() {
    let src = "resource \"aws_instance\" \"web\" {\n  user_data = \"x\"\n}\n";
    let mut state = workspace(vec![indexed("file:///a/main.tf", src)]);
    state.schemas.push(aws());
    let at_header = Range { start: at(src, "resource", 0), end: at(src, "resource", 8) };
    let diag = Diagnostic {
        range: at_header,
        severity: Some(DiagnosticSeverity::Error),
        source: Some("terraform-ls-rs".to_string()),
        message: "missing required attribute `ami`".to_string(),
    };
    let params =
        CodeActionParams {
            range: at_header,
            diagnostics: vec![diag],
            formatted_selection: None,
            gates: Vec::new(),
        };
    let actions = code_action(&state, &uri("file:///a/main.tf"), &params).expect("actions");
    let fix = actions.iter().find(|a| a.title.contains("ami")).expect("fix");
    let out = apply(src, edits_for(changes(fix), "file:///a/main.tf"));
    assert!(out.contains("ami = \"\""), "{out}");
    assert!(hcl_edit::parser::parse_body(&out).is_ok(), "{out}");
}

#[test]
fn variable_type_is_taken_from_the_default() {
    let src = "variable \"n\" {\n  default = 3\n}\n";
    let mut doc = indexed("file:///a/main.tf", src);
    doc.symbols.variable_defaults.push((
        "n".to_string(),
        InferredType { ty: VariableType::Primitive(Primitive::Number), text: "number".to_string() },
    ));
    let state = workspace(vec![doc]);
    let here = at(src, "variable", 2);
    let params = CodeActionParams {
        range: Range { start: here, end: here },
        diagnostics: Vec::new(),
        formatted_selection: None,
        gates: Vec::new(),
    };
    let actions = code_action(&state, &uri("file:///a/main.tf"), &params).expect("actions");
    let fix = actions.iter().find(|a| a.title.contains("number")).expect("fix");
    let out = apply(src, edits_for(changes(fix), "file:///a/main.tf"));
    assert!(out.contains("type = number") || out.contains("type    = number"), "{out}");
    assert!(hcl_edit::parser::parse_body(&out).is_ok(), "{out}");
}

#[test]
fn a_variable_type_is_offered_once() {
    let src = "variable \"n\" {\n  default = 3\n}\n";
    let mut doc = indexed("file:///a/main.tf", src);
    doc.symbols.variable_defaults.push((
        "n".to_string(),
        InferredType { ty: VariableType::Primitive(Primitive::Number), text: "number".to_string() },
    ));
    let state = workspace(vec![doc]);
    let range = Range { start: at(src, "variable", 0), end: at(src, "variable", 8) };
    let with = |diagnostics: Vec<Diagnostic>| {
        let params = CodeActionParams {
            range: Range { start: range.start, end: range.start },
            diagnostics,
            formatted_selection: None,
            gates: Vec::new(),
        };
        code_action(&state, &uri("file:///a/main.tf"), &params).expect("actions")
    };
    let both = with(vec![warning(range, "`n` variable has no type")]);
    let alone = with(Vec::new());
    let title = "Set variable type to `number` from default";
    let offered: Vec<&CodeAction> = both.iter().filter(|a| a.title == title).collect();
    assert_eq!(offered.len(), 1);
    assert_eq!(offered[0].diagnostics.as_ref().map(|d| d.len()), Some(1));
    let other = alone.iter().find(|a| a.title == title).expect("at the cursor");
    assert!(other.diagnostics.is_none());
    assert_eq!(
        apply(src, edits_for(changes(offered[0]), "file:///a/main.tf")),
        apply(src, edits_for(changes(other), "file:///a/main.tf"))
    );
    assert_eq!(both.iter().filter(|a| a.title.starts_with("Set variable type to")).count(), 1);
}

#[test]
fn provider_functions_are_checked_against_the_known_ones() {
    let src = "terraform {\n  required_providers {\n    aws = {\n      source = \"hashicorp/aws\"\n    }\n  }\n}\nlocals {\n  a = provider::aws::arn_parse(1)\n  b = provider::aws::nope(1)\n  c = provider::other::f(1)\n}\n";
    let mut state = workspace(vec![indexed("file:///a/main.tf", src)]);
    state.functions.push(FunctionEntry {
        name: "provider::hashicorp::aws::arn_parse".to_string(),
        label: "arn_parse(arn string) object".to_string(),
        description: None,
        parameters: Vec::new(),
        variadic_parameter: None,
    });
    let u = uri("file:///a/main.tf");
    let found = provider_function_call_diagnostics(&state, &u, &state.documents[0]);
    assert_eq!(found.len(), 2, "{found:?}");
    let texts: Vec<Option<String>> =
        found.iter().map(|d| slice_text(&state.documents[0].rope, d.range)).collect();
    assert_eq!(
        texts,
        vec![
            Some("provider::aws::nope".to_string()),
            Some("provider::other::f".to_string())
        ]
    );

    state.functions.clear();
    let found = provider_function_call_diagnostics(&state, &u, &state.documents[0]);
    assert!(found.iter().all(|d| !d.message.contains("nope")), "{found:?}");
}

#[test]
fn fingerprint_follows_what_other_files_can_see() {
    let before = indexed("file:///a/main.tf", MAIN);
    let same = indexed("file:///a/main.tf", &MAIN.replace("  ami = ", "  ami   =  "));
    let other = indexed("file:///a/main.tf", &MAIN.replace("\"ip\"", "\"address\""));
    assert_eq!(cross_file_tokens(&before), cross_file_tokens(&same));
    assert_eq!(cross_file_fingerprint(&before), cross_file_fingerprint(&same));
    assert_ne!(cross_file_tokens(&before), cross_file_tokens(&other));
    assert_ne!(cross_file_fingerprint(&before), cross_file_fingerprint(&other));
}

// ---------------------------------------------------------------------
// Completion

fn text(s: &str) -> String {
    s.to_string()
}

fn builtin_attr(name: &str, required: bool) -> BuiltinAttr {
    BuiltinAttr { name: text(name), required, detail: format!("about {name}") }
}

fn language() -> Language {
    Language {
        builtins: vec![BuiltinEntry {
            path: vec![text("terraform")],
            schema: BuiltinSchema {
                attrs: vec![builtin_attr("experiments", false), builtin_attr("required_version", true)],
                blocks: vec![
                    BuiltinBlock {
                        name: text("backend"),
                        detail: text("state storage"),
                        label_placeholder: Some(text("s3")),
                        required_attrs: Vec::new(),
                    },
                    BuiltinBlock {
                        name: text("cloud"),
                        detail: text("cloud"),
                        label_placeholder: None,
                        required_attrs: vec![
                            RequiredAttr { name: text("organization"), quoted: true },
                            RequiredAttr { name: text("workspaces"), quoted: false },
                        ],
                    },
                ],
            },
        }],
        provider_meta: vec![builtin_attr("alias", false)],
        lifecycle_resource: Vec::new(),
        lifecycle_data: Vec::new(),
        meta_attrs: vec![(text("count"), text("how many")), (text("depends_on"), String::new())],
        lifecycle_resource_docs: Vec::new(),
        lifecycle_data_docs: Vec::new(),
        condition_docs: Vec::new(),
        tests: Vec::new(),
        backends: Vec::new(),
        provider_entry: vec![builtin_attr("source", true), builtin_attr("version", false)],
        common_providers: vec![CommonProvider {
            local_name: text("aws"),
            source: text("hashicorp/aws"),
            hint: text("Amazon"),
        }],
        operators: vec![
            OperatorEntry {
                op: ConstraintOp::Pessimistic,
                token: text("~>"),
                short_description: text("compatible"),
                long_description: text("compatible with"),
            },
            OperatorEntry {
                op: ConstraintOp::Gte,
                token: text(">="),
                short_description: text("at least"),
                long_description: text("at least this"),
            },
        ],
        resource_meta_blocks: vec![
            MetaBlock { name: text("lifecycle"), description: text("lc"), singleton: true },
            MetaBlock { name: text("provisioner"), description: text("p"), singleton: false },
        ],
        data_meta_blocks: Vec::new(),
        dynamic_docs: vec![(text("for_each"), text("over what"))],
        content_doc: text("the body"),
        optional_doc: text("may be left out"),
    }
}

fn request(address: &str, position: Position, context: CompletionContext) -> CompletionParams {
    CompletionParams {
        uri: uri(address),
        position,
        trigger_character: None,
        context,
        test_file: false,
        module_under_test: None,
        fetched: Fetched { versions: None, catalog: None, latest_minors: Vec::new() },
        merged: MergedShapes { root: None, element: None },
    }
}

fn labels(items: &[CompletionItem]) -> Vec<&str> {
    items.iter().map(|i| i.label.as_str()).collect()
}

fn complete(state: &StateStore, params: &CompletionParams) -> Vec<CompletionItem> {
    completion(state, &language(), params).unwrap_or_default()
}

const BODY: &str = "resource \"aws_instance\" \"web\" {\n  user_data = \"x\"\n  lifecycle {}\n  \n}\n";

fn in_body(src: &str, needle: &str, n: usize) -> Vec<CompletionItem> {
    let mut state = workspace(vec![indexed("file:///a/main.tf", src)]);
    state.schemas.push(aws());
    let context = CompletionContext::ResourceBody { resource_type: text("aws_instance") };
    complete(&state, &request("file:///a/main.tf", at(src, needle, n), context))
}

#[test]
fn resource_body_offers_what_is_missing() {
    let items = in_body(BODY, "  \n}", 2);
    assert_eq!(labels(&items), vec!["ami", "disk", "count", "depends_on", "provisioner"]);
    assert_eq!(items[0].insert_text.as_deref(), Some("ami = \"${1}\""));
    assert_eq!(items[0].sort_text.as_deref(), Some("0_ami"));
    assert_eq!(items[0].detail.as_deref(), Some("required"));
    assert_eq!(items[1].insert_text.as_deref(), Some("disk {\n  size = ${1}\n}"));
    assert_eq!(items[2].documentation.as_deref(), Some("how many"));
    assert_eq!(items[3].insert_text.as_deref(), Some("depends_on = [${1}]"));
    assert_eq!(items[3].documentation, None);
    assert_eq!(items[4].sort_text.as_deref(), Some("3_provisioner"));
}

#[test]
fn nested_bodies_offer_their_own_attributes_only() {
    let src = "resource \"aws_instance\" \"web\" {\n  disk {\n    \n  }\n}\n";
    assert_eq!(labels(&in_body(src, "    \n", 4)), vec!["size"]);
    let wrong = "resource \"aws_instance\" \"web\" {\n  dsk {\n    \n  }\n}\n";
    assert!(in_body(wrong, "    \n", 4).is_empty());
}

#[test]
fn full_blocks_are_left_out() {
    let src = "resource \"aws_instance\" \"web\" {\n  disk {\n    size = 1\n  }\n  \n}\n";
    assert!(!labels(&in_body(src, "  \n}", 2)).contains(&"disk"));
    let dynamic = "resource \"aws_instance\" \"web\" {\n  dynamic \"disk\" {\n    for_each = []\n    content {\n      size = 1\n    }\n  }\n  \n}\n";
    assert!(labels(&in_body(dynamic, "  \n}\n", 2)).contains(&"disk"));
}

#[test]
fn dynamic_bodies_offer_their_meta_arguments() {
    let src = "resource \"aws_instance\" \"web\" {\n  dynamic \"disk\" {\n    for_each = []\n    \n  }\n}\n";
    let items = in_body(src, "    \n  }", 4);
    assert_eq!(labels(&items), vec!["content", "iterator", "labels"]);
    let inside = "resource \"aws_instance\" \"web\" {\n  dynamic \"disk\" {\n    for_each = []\n    content {\n      \n    }\n  }\n}\n";
    assert_eq!(labels(&in_body(inside, "      \n", 6)), vec!["size"]);
}

#[test]
fn type_scaffolds_stop_at_a_closed_label() {
    let open = "resource \"aws_\n";
    let mut state = workspace(vec![document("file:///a/x.tf", "")]);
    state.schemas.push(aws());
    state.documents[0].rope = Rope::from_str(open);
    let place = Position::new(0, 14);
    let items = complete(&state, &request("file:///a/x.tf", place, CompletionContext::ResourceType));
    assert_eq!(
        items[0].insert_text.as_deref(),
        Some("aws_instance\" \"${1:name}\" {\n  ami = \"${2}\"\n}")
    );
    state.documents[0].rope = Rope::from_str("resource \"aws_\" {}\n");
    let items = complete(&state, &request("file:///a/x.tf", place, CompletionContext::ResourceType));
    assert_eq!(items[0].insert_text.as_deref(), Some("aws_instance"));
}

#[test]
fn builtin_bodies_put_required_attributes_first() {
    let src = "terraform {\n  \n}\n";
    let state = workspace(vec![indexed("file:///a/main.tf", src)]);
    let context = CompletionContext::BuiltinBody { path: vec![text("terraform")] };
    let items = complete(&state, &request("file:///a/main.tf", at(src, "  \n", 2), context));
    assert_eq!(labels(&items), vec!["required_version", "experiments", "backend", "cloud"]);
    assert_eq!(items[2].insert_text.as_deref(), Some("backend \"${1:s3}\" {\n  $0\n}"));
    assert_eq!(
        items[3].insert_text.as_deref(),
        Some("cloud {\n  organization = \"${1}\"\n  workspaces = ${2}\n}")
    );
}

#[test]
fn colons_complete_only_in_pairs() {
    let src = "locals {\n  a = provider::\n  b = x ?:\n}\n";
    let mut state = workspace(vec![document("file:///a/x.tf", "")]);
    state.documents[0].rope = Rope::from_str(src);
    state.functions.push(FunctionEntry {
        name: text("provider::hashicorp::aws::arn_parse"),
        label: text("arn_parse(arn)"),
        description: None,
        parameters: Vec::new(),
        variadic_parameter: None,
    });
    let mut params = request(
        "file:///a/x.tf",
        at(src, "provider::", 10),
        CompletionContext::ProviderFunctionNamespace,
    );
    params.trigger_character = Some(text(":"));
    assert_eq!(labels(&complete(&state, &params)), vec!["aws"]);
    params.position = at(src, "?:", 2);
    assert!(completion(&state, &language(), &params).is_none());
}

fn published(v: &str) -> PublishedVersion {
    PublishedVersion { version: text(v), provenance: text("terraform") }
}

fn version_request(slot: CursorSlot) -> CompletionParams {
    let mut p = request(
        "file:///a/x.tf",
        Position::new(0, 14),
        CompletionContext::RequiredProviderVersionValue { source: Some(text("hashicorp/aws")), slot },
    );
    p.fetched.versions = Some(vec![published("6.0.0-beta1"), published("5.94.0"), published("5.9.1")]);
    p
}

#[test]
fn empty_constraints_lead_with_the_latest_stable_version() {
    let mut state = workspace(vec![document("file:///a/x.tf", "")]);
    state.documents[0].rope = Rope::from_str("    version = \"\"\n");
    let items = complete(&state, &version_request(CursorSlot::AtOperator));
    assert_eq!(
        labels(&items),
        vec!["5.94.0", "~> 5.94", ">= 5.94.0", "~>", ">=", "6.0.0-beta1", "5.94.0", "5.9.1"]
    );
    assert!(items[0].preselect);
    assert_eq!(items[0].detail.as_deref(), Some("latest — hashicorp/aws (terraform)"));
    assert_eq!(items[4].sort_text.as_deref(), Some("100"));
    assert_eq!(items[7].sort_text.as_deref(), Some("20002"));
}

#[test]
fn typed_versions_narrow_the_list() {
    let mut state = workspace(vec![document("file:///a/x.tf", "")]);
    state.documents[0].rope = Rope::from_str("    version = \"5.9\"\n");
    let slot = CursorSlot::InsideVersion { op: ConstraintOp::Eq, partial: text("5.9") };
    let items = complete(&state, &version_request(slot));
    assert_eq!(labels(&items), vec!["5.94.0", "5.9.1"]);
    let slot = CursorSlot::InsideVersion { op: ConstraintOp::Eq, partial: text("7") };
    assert_eq!(complete(&state, &version_request(slot)).len(), 3);
    let mut none = version_request(CursorSlot::AfterOperator(ConstraintOp::Eq));
    none.fetched.versions = None;
    assert_eq!(labels(&complete(&state, &none)), vec!["~>", ">="]);
}

#[test]
fn sources_are_offered_once() {
    let mut state = workspace(vec![document("file:///a/x.tf", "")]);
    state.documents[0].rope = Rope::from_str("  source = \"\"\n");
    let mut p = request(
        "file:///a/x.tf",
        Position::new(0, 12),
        CompletionContext::RequiredProviderSourceValue,
    );
    p.fetched.catalog = Some(vec![
        CatalogEntry { source: text("hashicorp/aws"), tier: None, description: None },
        CatalogEntry {
            source: text("acme/x"),
            tier: Some(text("partner")),
            description: Some(text("  an x ")),
        },
    ]);
    let items = complete(&state, &p);
    assert_eq!(
        labels(&items),
        vec![
            "hashicorp/aws",
            "registry.terraform.io/hashicorp/aws",
            "registry.opentofu.org/hashicorp/aws",
            "acme/x"
        ]
    );
    assert_eq!(items[3].detail.as_deref(), Some("partner tier — an x"));
}

#[test]
fn provider_entries_track_the_cached_latest_version() {
    let src = "terraform {\n  required_providers {\n    \n  }\n}\n";
    let state = workspace(vec![indexed("file:///a/main.tf", src)]);
    let mut p = request(
        "file:///a/main.tf",
        at(src, "    \n", 4),
        CompletionContext::RequiredProvidersBody,
    );
    let cold = complete(&state, &p);
    assert_eq!(
        cold[0].insert_text.as_deref(),
        Some("aws = {\n  source  = \"hashicorp/aws\"\n  version = \"${1}\"\n}$0")
    );
    p.fetched.latest_minors.push(CachedMinor {
        namespace: text("hashicorp"),
        name: text("aws"),
        minor: text("5.94"),
    });
    let warm = complete(&state, &p);
    assert!(warm[0].insert_text.as_deref().unwrap().contains("\"${1:~> 5.94}\""));
}

fn shape(fields: &[(&str, &str)]) -> VariableType {
    VariableType::Object(
        fields
            .iter()
            .map(|(n, t)| {
                (text(n), InferredType { ty: VariableType::Any, text: text(t) })
            })
            .collect(),
    )
}

#[test]
fn index_keys_replace_what_is_typed() {
    let src = "x = var.m[\"a\"]\n";
    let mut doc = document("file:///a/x.tf", "");
    doc.rope = Rope::from_str(src);
    doc.symbols.variable_types.push((
        text("m"),
        InferredType { ty: shape(&[("zone", "string"), ("name", "string")]), text: text("object") },
    ));
    let state = workspace(vec![doc]);
    let p = request(
        "file:///a/x.tf",
        at(src, "[\"", 2),
        CompletionContext::IndexKeyRef {
            root: IndexRootRef::Variable { name: text("m") },
            path: Vec::new(),
        },
    );
    let items = complete(&state, &p);
    assert_eq!(labels(&items), vec!["name", "zone"]);
    let edit = items[0].text_edit.as_ref().expect("edit");
    assert_eq!(apply(src, &[TextEdit { range: edit.range, new_text: edit.new_text.clone() }]), "x = var.m[\"name\"]\n");
}

#[test]
fn merged_shapes_stand_in_for_several() {
    let src = "x = var.m[\n";
    let mut a = document("file:///a/x.tf", "");
    a.rope = Rope::from_str(src);
    a.symbols.variable_types.push((
        text("m"),
        InferredType { ty: shape(&[("one", "string")]), text: text("object") },
    ));
    a.symbols.variable_defaults.push((
        text("m"),
        InferredType { ty: shape(&[("two", "string")]), text: text("object") },
    ));
    let state = workspace(vec![a]);
    let mut p = request(
        "file:///a/x.tf",
        at(src, "[", 1),
        CompletionContext::IndexKeyRef {
            root: IndexRootRef::Variable { name: text("m") },
            path: Vec::new(),
        },
    );
    assert!(complete(&state, &p).is_empty());
    p.merged.root = Some(shape(&[("one", "string"), ("two", "string")]));
    assert_eq!(labels(&complete(&state, &p)), vec!["one", "two"]);
    p.context = CompletionContext::IndexKeyRef {
        root: IndexRootRef::Variable { name: text("m") },
        path: vec![PathStep::Bracket(text("three"))],
    };
    assert!(complete(&state, &p).is_empty());
}

#[test]
fn each_value_has_the_fields_of_the_collection() {
    let src = "resource \"aws_instance\" \"web\" {\n  for_each = {}\n  ami = each.value.\n}\n";
    let tree = "resource \"aws_instance\" \"web\" {\n  for_each = {}\n  ami = each.value.x\n}\n";
    let mut doc = indexed("file:///a/main.tf", tree);
    doc.rope = Rope::from_str(src);
    doc.symbols.for_each_shapes.push(tfls_lsp::state::AddressShape {
        resource_type: text("aws_instance"),
        name: text("web"),
        shape: VariableType::MapOf(Box::new(shape(&[("size", "number"), ("image", "string")]))),
    });
    let state = workspace(vec![doc]);
    let p = request(
        "file:///a/main.tf",
        at(src, "each.value.", 11),
        CompletionContext::EachAttr { path: Vec::new() },
    );
    assert_eq!(labels(&complete(&state, &p)), vec!["image", "size"]);
}

#[test]
fn values_come_before_functions() {
    let mut state = two_modules();
    let mut schema = aws();
    schema.schema.resource_schemas[0].1.block.attributes[1].1.allowed_values =
        Some(vec![text("on"), text("3")]);
    state.schemas.push(schema);
    for name in ["max", "abs", "provider::hashicorp::aws::f"] {
        state.functions.push(FunctionEntry {
            name: text(name),
            label: format!("{name}()"),
            description: None,
            parameters: Vec::new(),
            variadic_parameter: None,
        });
    }
    let p = request(
        "file:///a/main.tf",
        Position::new(0, 0),
        CompletionContext::AttributeValue {
            resource_type: text("aws_instance"),
            attr_name: text("user_data"),
        },
    );
    let items = complete(&state, &p);
    assert_eq!(
        labels(&items),
        vec!["\"on\"", "3", "var.region", "local.where", "local.x", "abs", "max"]
    );
    let places: Vec<&str> = items.iter().map(|i| i.sort_text.as_deref().unwrap()).collect();
    assert_eq!(places[0], "0000_\"on\"");
    assert_eq!(places[5], "90005_abs");
    let mut sorted = places.clone();
    sorted.sort();
    assert_eq!(places, sorted);
}

#[test]
fn value_files_offer_unset_variables() {
    let mut state = two_modules();
    let src = "other = 1\n\n";
    state.documents.push(indexed("file:///a/terraform.tfvars", src));
    let p = request("file:///a/terraform.tfvars", Position::new(1, 0), CompletionContext::Unknown);
    let items = complete(&state, &p);
    assert_eq!(labels(&items), vec!["region"]);
    assert_eq!(items[0].insert_text.as_deref(), Some("region = ${1}"));
    let p = request("file:///a/terraform.tfvars", Position::new(0, 9), CompletionContext::Unknown);
    assert_eq!(completion(&state, &language(), &p).map(|v| v.len()), Some(0));
}

#[test]
fn test_files_refer_to_the_module_under_test() {
    let mut state = two_modules();
    let src = "run \"first\" {}\n";
    let mut doc = indexed("file:///a/tests/x.tftest.hcl", src);
    doc.rope = Rope::from_str("run \"first\" {}\nx = var.\n");
    state.documents.push(doc);
    let mut p =
        request("file:///a/tests/x.tftest.hcl", Position::new(1, 8), CompletionContext::Unknown);
    p.test_file = true;
    p.module_under_test = Some(text("/a"));
    assert_eq!(labels(&complete(&state, &p)), vec!["region"]);
    p.position = Position::new(1, 0);
    assert!(labels(&complete(&state, &p)).contains(&"run"));
}

#[test]
fn nothing_to_offer_is_no_answer() {
    let state = two_modules();
    let p = request("file:///a/main.tf", Position::new(0, 0), CompletionContext::LocalsBlockBody);
    assert!(completion(&state, &language(), &p).is_none());
    let p = request("file:///a/main.tf", Position::new(99, 0), CompletionContext::TopLevel);
    assert!(completion(&state, &language(), &p).is_none());
    let p = request("file:///a/none.tf", Position::new(0, 0), CompletionContext::TopLevel);
    assert!(completion(&state, &language(), &p).is_none());
    let p = request("file:///a/main.tf", Position::new(0, 0), CompletionContext::TopLevel);
    assert_eq!(complete(&state, &p).len(), 12);
}

fn hovered(state: &StateStore, address: &str, position: Position) -> Option<String> {
    let call = CallContext { word: None, named: None, enclosing: None };
    hover(state, &language(), &uri(address), position, call).map(|h| h.value)
}

fn hovered_in(src: &str, address: &str, schemas: Vec<SchemaEntry>, needle: &str) -> Option<String> {
    let mut state = workspace(vec![indexed(address, src)]);
    state.schemas = schemas;
    hovered(&state, address, at(src, needle, 1))
}

#[test]
fn attributes_are_described_by_their_schema() {
    let src = "resource \"aws_instance\" \"web\" {\n  ami = 1\n  disk {\n    size = 2\n  }\n}\n";
    let tf = "file:///a/main.tf";
    assert_eq!(
        hovered_in(src, tf, vec![aws()], "ami"),
        Some("**resource** `aws_instance`\n\n**attribute** `ami` — required\n".to_string())
    );
    assert_eq!(
        hovered_in(src, tf, vec![aws()], "size"),
        Some("**resource** `aws_instance` / `disk`\n\n**attribute** `size` — required\n".to_string())
    );
    assert_eq!(
        hovered_in(src, tf, vec![aws()], "disk"),
        Some(
            "**block** `disk` on resource `aws_instance` — nesting: list, max_items: 1\n\n\n**Required attrs:** `size`"
                .to_string()
        )
    );
    let dynamic = "resource \"aws_instance\" \"web\" {\n  dynamic \"disk\" {\n    content {\n      size = 2\n    }\n  }\n}\n";
    assert_eq!(
        hovered_in(dynamic, tf, vec![aws()], "size"),
        Some("**resource** `aws_instance` / `disk`\n\n**attribute** `size` — required\n".to_string())
    );
}

#[test]
fn keys_without_a_schema_are_told_why() {
    let tf = "file:///a/main.tf";
    let src = "resource \"aws_instance\" \"web\" {\n  color = 1\n  paint {\n  }\n}\n";
    let head = "**attribute** `color` on resource `aws_instance`\n\n";
    assert_eq!(
        hovered_in(src, tf, Vec::new(), "color"),
        Some(format!("{head}_No provider schemas are loaded._ Run `terraform init` (or `tofu init`) in this workspace so tfls can fetch attribute documentation via `terraform providers schema -json`."))
    );
    assert_eq!(
        hovered_in(src, tf, vec![aws()], "color"),
        Some(format!("{head}_Attribute `color` is not in the schema for `aws_instance`._ Check the spelling or provider version."))
    );
    assert_eq!(
        hovered_in(src, tf, vec![aws()], "paint"),
        Some("**block** `paint` on resource `aws_instance`\n\n_Block `paint` is not in the schema for `aws_instance`._".to_string())
    );
    let other = "data \"gcp_zone\" \"z\" {\n  color = 1\n}\n";
    assert_eq!(
        hovered_in(other, tf, vec![aws()], "color"),
        Some("**attribute** `color` on data source `gcp_zone`\n\n_No schema for `gcp_zone` is loaded._ The relevant provider may not be declared in `required_providers`, or `terraform init` has not been run since it was added.".to_string())
    );
}

#[test]
fn language_keys_are_described_without_a_schema() {
    let tf = "file:///a/main.tf";
    let src = "resource \"aws_instance\" \"web\" {\n  count = 1\n  lifecycle {\n    enabled = true\n  }\n  connection {\n    host = 1\n  }\n}\n";
    assert_eq!(
        hovered_in(src, tf, vec![aws()], "count"),
        Some("**meta-argument** `count` on resource `aws_instance`\n\nhow many".to_string())
    );
    let note = hovered_in(src, tf, vec![aws()], "enabled").expect("hover");
    assert!(note.starts_with("**attribute** `enabled` in `lifecycle`\n\n⚠ _OpenTofu 1.11+"), "{note}");
    assert_eq!(
        hovered_in(src, "file:///a/main.tofu", vec![aws()], "enabled"),
        Some("**attribute** `enabled` in `lifecycle`\n\n_OpenTofu 1.11+ meta-argument. ([docs](https://opentofu.org/docs/language/meta-arguments/enabled/))_".to_string())
    );
    let host = hovered_in(src, tf, vec![aws()], "host").expect("hover");
    assert!(
        host.starts_with("**attribute** `host` in `connection` (Terraform/OpenTofu language meta-argument)"),
        "{host}"
    );
    let settings = "terraform {\n  required_version = 1\n  experiments = 2\n  colour = 3\n  backend \"s3\" {\n  }\n}\n";
    assert_eq!(
        hovered_in(settings, tf, Vec::new(), "required_version").map(|h| h.starts_with("**attribute** `required_version` in `terraform` — required")),
        Some(true)
    );
    assert_eq!(
        hovered_in(settings, tf, Vec::new(), "colour"),
        Some("**attribute** `colour` in `terraform`\n\n_Unknown attribute for this built-in block._".to_string())
    );
    assert_eq!(
        hovered_in(settings, tf, Vec::new(), "backend"),
        Some("**block** `backend` on terraform block\n\nstate storage\n\n_Labelled block — example: `backend \"s3\" { … }`_".to_string())
    );
}

#[test]
fn symbols_are_described_where_no_key_is() {
    let src = "variable \"region\" {\n}\noutput \"o\" {\n  value = var.region\n}\n";
    let state = workspace(vec![indexed("file:///a/main.tf", src)]);
    assert_eq!(
        hovered(&state, "file:///a/main.tf", at(src, "var.region", 6)),
        Some("**variable** `region`".to_string())
    );
    assert_eq!(hovered(&state, "file:///b/main.tf", at(src, "var.region", 6)), None);
}

#[test]
fn module_inputs_are_described_by_the_child() {
    let src = "module \"net\" {\n  source = \"./net\"\n  cidr   = 1\n}\n";
    let child = "variable \"cidr\" {\n}\n";
    let mut state = workspace(vec![
        indexed("file:///a/main.tf", src),
        indexed("file:///a/net/main.tf", child),
    ]);
    state.module_dirs.push(ModuleDir {
        dir: "/a".to_string(),
        label: "net".to_string(),
        source: "./net".to_string(),
        child: "/a/net".to_string(),
    });
    assert_eq!(
        hovered(&state, "file:///a/main.tf", at(src, "cidr", 1)),
        Some("### `cidr`  *(any)*".to_string())
    );
    state.documents.pop();
    let fallback = hovered(&state, "file:///a/main.tf", at(src, "cidr", 1));
    assert_eq!(fallback, Some("**module** `net`".to_string()));
}

#[test]
fn fingerprint_forgets_the_order_of_declarations() {
    let one = "variable \"a\" {\n}\nvariable \"b\" {\n}\noutput \"o\" {\n  value = var.a\n}\n";
    let two = "output \"o\" {\n  value = var.a\n}\nvariable \"b\" {\n}\nvariable \"a\" {\n}\n";
    let x = indexed("file:///a/main.tf", one);
    let y = indexed("file:///a/main.tf", two);
    assert_eq!(cross_file_tokens(&x), cross_file_tokens(&y));
    assert_eq!(cross_file_fingerprint(&x), cross_file_fingerprint(&y));
}
