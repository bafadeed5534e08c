use hcl_edit::expr::{Expression as HclExpr, ObjectKey as HclKey, TraversalOperator as HclOp};
use hcl_edit::repr::Span as NodeSpan;
use hcl_edit::structure::{Body as HclBody, Structure as HclStructure};
use hcl_edit::template::{Directive, Element as HclElement, Template};
use ropey::Rope;
use tfls_lsp::builtin::{
    BuiltinAttr, BuiltinBlock, BuiltinEntry, BuiltinSchema, Language,
};
use tfls_lsp::code_lens::collect;
use tfls_lsp::completion_cursor::tftest_block_path;
use tfls_lsp::completion_files::{tftest_resolve_schema, tftest_run_label_items};
use tfls_lsp::completion_values::{expression_root_items, required_providers_name_to_local};
use tfls_lsp::document_link::registry_link;
use tfls_lsp::formatting::{enclosing_block_range, match_trailing_newline};
use tfls_lsp::hcl::{
    Attribute, BinaryOp, Block, BlockLabel, Body, Conditional, Element, ExprKind, Expression,
    ForExpr, FuncCall, Ident, ObjectItem, ObjectKey, Operator, Structure, Traversal,
    TraversalOperator,
};
use tfls_lsp::inlay_hints::{collect_variable_defaults, lifecycle_enabled_hints, InlayHint};
use tfls_lsp::module_snapshot::{
    referenced_dirs_in_workspace, DiskView, ModuleSnapshot, ResolvedSource,
};
use tfls_lsp::position::{slice_text, Position, Range, Span};
use tfls_lsp::providers::required_providers_local_to_name_pub;
use tfls_lsp::schema::ProviderAddress;
use tfls_lsp::state::{
    DocUri, DocumentState, Reference, ReferenceKind, StateStore, Symbol, SymbolIndex, SymbolKey,
    SymbolKind, SymbolLocation, SymbolTable,
};

fn span(s: Option<std::ops::Range<usize>>) -> Option<Span> {
    s.map(|r| Span { start: r.start, end: r.end })
}

fn exprs_of(t: &Template, out: &mut Vec<Expression>) {
    for e in t.iter() {
        match e {
            HclElement::Literal(_) => {}
            HclElement::Interpolation(i) => out.push(expr(&i.expr)),
            HclElement::Directive(d) => directive(d, out),
        }
    }
}

fn directive(d: &Directive, out: &mut Vec<Expression>) {
    match d {
        Directive::If(i) => {
            out.push(expr(&i.if_expr.cond_expr));
            exprs_of(&i.if_expr.template, out);
            if let Some(e) = &i.else_expr {
                exprs_of(&e.template, out);
            }
        }
        Directive::For(f) => {
            out.push(expr(&f.for_expr.collection_expr));
            exprs_of(&f.for_expr.template, out);
        }
    }
}

fn element(e: &HclElement) -> Element {
    match e {
        HclElement::Literal(s) => Element::Literal(s.as_str().to_string()),
        HclElement::Interpolation(i) => Element::Interpolation(expr(&i.expr)),
        HclElement::Directive(d) => {
            let mut v = Vec::new();
            directive(d, &mut v);
            Element::Directive(v)
        }
    }
}

fn expr(e: &HclExpr) -> Expression {
    let kind = match e {
        HclExpr::Null(_) => ExprKind::Null,
        HclExpr::Bool(b) => ExprKind::Bool(**b),
        HclExpr::Number(n) => ExprKind::Number(n.value().to_string()),
        HclExpr::String(s) => ExprKind::Str(s.as_str().to_string()),
        HclExpr::Array(a) => ExprKind::Array(a.iter().map(expr).collect()),
        HclExpr::Object(o) => ExprKind::Object(
            o.iter()
                .map(|(k, v)| ObjectItem {
                    key: match k {
                        HclKey::Ident(i) => ObjectKey::Ident(Ident {
                            text: i.as_str().to_string(),
                            span: span(i.span()),
                        }),
                        HclKey::Expression(e) => ObjectKey::Expression(expr(e)),
                    },
                    value: expr(v.expr()),
                })
                .collect(),
        ),
        HclExpr::StringTemplate(t) => ExprKind::StringTemplate(t.iter().map(element).collect()),
        HclExpr::HeredocTemplate(t) => {
            ExprKind::HeredocTemplate(t.template.iter().map(element).collect())
        }
        HclExpr::Parenthesis(p) => ExprKind::Parenthesis(Box::new(expr(p.inner()))),
        HclExpr::Variable(v) => ExprKind::Variable(v.as_str().to_string()),
        HclExpr::Conditional(c) => ExprKind::Conditional(Box::new(Conditional {
            cond_expr: expr(&c.cond_expr),
            true_expr: expr(&c.true_expr),
            false_expr: expr(&c.false_expr),
        })),
        HclExpr::FuncCall(f) => ExprKind::FuncCall(FuncCall {
            namespace: f
                .name
                .namespace
                .iter()
                .map(|i| Ident { text: i.as_str().to_string(), span: span(i.span()) })
                .collect(),
            name: Ident {
                text: f.name.name.as_str().to_string(),
                span: span(f.name.name.span()),
            },
            args: f.args.iter().map(expr).collect(),
        }),
        HclExpr::Traversal(t) => ExprKind::Traversal(Box::new(Traversal {
            expr: expr(&t.expr),
            operators: t
                .operators
                .iter()
                .map(|o| Operator {
                    kind: match o.value() {
                        HclOp::AttrSplat(_) => TraversalOperator::AttrSplat,
                        HclOp::FullSplat(_) => TraversalOperator::FullSplat,
                        HclOp::GetAttr(i) => TraversalOperator::GetAttr(Ident {
                            text: i.as_str().to_string(),
                            span: span(i.span()),
                        }),
                        HclOp::Index(e) => TraversalOperator::Index(expr(e)),
                        HclOp::LegacyIndex(n) => TraversalOperator::LegacyIndex(**n),
                    },
                    span: span(o.span()),
                })
                .collect(),
        })),
        HclExpr::UnaryOp(u) => ExprKind::UnaryOp(Box::new(expr(&u.expr))),
        HclExpr::BinaryOp(b) => ExprKind::BinaryOp(Box::new(BinaryOp {
            lhs_expr: expr(&b.lhs_expr),
            rhs_expr: expr(&b.rhs_expr),
        })),
        HclExpr::ForExpr(f) => ExprKind::ForExpr(Box::new(ForExpr {
            collection_expr: expr(&f.intro.collection_expr),
            key_expr: f.key_expr.as_ref().map(expr),
            value_expr: expr(&f.value_expr),
            cond_expr: f.cond.as_ref().map(|c| expr(&c.expr)),
        })),
    };
    Expression { kind, span: span(e.span()) }
}

fn tree(b: &HclBody) -> Body {
    Body {
        structures: b
            .iter()
            .map(|s| match s {
                HclStructure::Attribute(a) => Structure::Attribute(Attribute {
                    key: Ident { text: a.key.as_str().to_string(), span: span(a.key.span()) },
                    value: expr(&a.value),
                    span: span(a.span()),
                }),
                HclStructure::Block(b) => Structure::Block(Block {
                    ident: Ident { text: b.ident.as_str().to_string(), span: span(b.ident.span()) },
                    labels: b
                        .labels
                        .iter()
                        .map(|l| BlockLabel {
                            text: l.as_str().to_string(),
                            quoted: l.is_string(),
                            span: span(l.span()),
                        })
                        .collect(),
                    body: tree(&b.body),
                    span: span(b.span()),
                }),
            })
            .collect(),
        span: span(b.span()),
    }
}

fn parse(src: &str) -> Body {
    tree(&hcl_edit::parser::parse_body(src).expect("parses"))
}

fn uri(text: &str) -> DocUri {
    let path = text.strip_prefix("file://").unwrap_or(text).to_string();
    let (dir, name) = match path.rsplit_once('/') {
        Some((d, n)) => (d.to_string(), n.to_string()),
        None => (String::new(), path.clone()),
    };
    DocUri { text: text.to_string(), path, dir: Some(dir), file_name: Some(name) }
}

fn no_symbols() -> SymbolTable {
    SymbolTable {
        variables: Vec::new(),
        locals: Vec::new(),
        outputs: Vec::new(),
        modules: Vec::new(),
        resources: Vec::new(),
        data_sources: Vec::new(),
        module_sources: Vec::new(),
        variable_types: Vec::new(),
        variable_defaults: Vec::new(),
        local_shapes: Vec::new(),
        for_each_shapes: Vec::new(),
        data_source_for_each_shapes: Vec::new(),
        module_for_each_shapes: Vec::new(),
    }
}

fn document(address: &str, src: &str) -> DocumentState {
    DocumentState {
        uri: uri(address),
        rope: Rope::from_str(src),
        body: Some(parse(src)),
        version: 1,
        symbols: no_symbols(),
        references: Vec::new(),
        formatted: None,
        interpolation_ranges: Vec::new(),
        lookup_ranges: Vec::new(),
        supports_terraform_data: false,
        supports_templatefile: false,
        function_locals: Vec::new(),
    }
}

fn store(documents: Vec<DocumentState>) -> StateStore {
    StateStore {
        documents,
        disk: Vec::new(),
        schemas: Vec::new(),
        assigned_types: Vec::new(),
        definitions_by_name: Vec::new(),
        references_by_name: Vec::new(),
        functions: Vec::new(),
        module_dirs: Vec::new(),
    }
}

fn place(line: u32) -> SymbolLocation {
    SymbolLocation {
        uri: "file:///t.tf".to_string(),
        dir: Some(String::new()),
        range: Range { start: Position::new(line, 0), end: Position::new(line, 5) },
    }
}

/// A document that declares one variable, used `n` times.
fn used_variable(name: &str, src: &str, n: u32) -> StateStore {
    let mut doc = document("file:///t.tf", src);
    doc.symbols.variables.push(Symbol { name: name.to_string(), location: place(0), doc: None });
    for i in 0..n {
        doc.references.push(Reference {
            kind: ReferenceKind::Variable { name: name.to_string() },
            location: place(i + 1),
        });
    }
    let mut state = store(vec![doc]);
    state.references_by_name.push(SymbolIndex {
        key: SymbolKey::new(SymbolKind::Variable, name),
        locations: (0..n).map(|i| place(i + 1)).collect(),
    });
    state
}

#[test]
fn no_references_produces_zero_count_label() {
    let state = used_variable("a", "variable \"a\" {}", 0);
    let out = collect(&state.documents[0], &state);
    assert_eq!(out.len(), 1);
    assert_eq!(out[0].title, "0 references");
}

#[test]
fn counts_references_across_document() {
    let state = used_variable(
        "x",
        "variable \"x\" {}\noutput \"a\" { value = var.x }\noutput \"b\" { value = var.x }\noutput \"c\" { value = var.x }\n",
        3,
    );
    let out = collect(&state.documents[0], &state);
    let lens = out.iter().find(|l| l.title.contains("references"));
    assert_eq!(lens.expect("lens").title, "3 references");
}

#[test]
fn singular_label_when_one_reference() {
    let state = used_variable("x", "variable \"x\" {}\noutput \"a\" { value = var.x }\n", 1);
    let out = collect(&state.documents[0], &state);
    assert!(out.iter().any(|l| l.title == "1 reference"), "expected singular form");
}

#[test]
fn resolves_long_form_source() {
    let src = "terraform {\n  required_providers {\n    aws_v6 = {\n      source = \"hashicorp/aws\"\n    }\n  }\n}\n";
    assert_eq!(
        required_providers_local_to_name_pub(&parse(src), "aws_v6"),
        Some("aws".to_string())
    );
}

#[test]
fn resolves_long_form_with_full_hostname() {
    let src = "terraform {\n  required_providers {\n    aws_v6 = {\n      source = \"registry.terraform.io/hashicorp/aws\"\n    }\n  }\n}\n";
    assert_eq!(
        required_providers_local_to_name_pub(&parse(src), "aws_v6"),
        Some("aws".to_string())
    );
}

#[test]
fn falls_back_to_local_for_short_form() {
    let src = "terraform {\n  required_providers {\n    aws = \"~> 4.0\"\n  }\n}\n";
    assert_eq!(
        required_providers_local_to_name_pub(&parse(src), "aws"),
        Some("aws".to_string())
    );
}

#[test]
fn unknown_local_returns_none() {
    let src = "terraform {\n  required_providers {\n    aws = \"~> 4.0\"\n  }\n}\n";
    assert_eq!(required_providers_local_to_name_pub(&parse(src), "kubernetes"), None);
}

#[test]
fn name_to_local_inverts() {
    let src = "terraform {\n  required_providers {\n    aws_v6 = {\n      source = \"hashicorp/aws\"\n    }\n    k8s = {\n      source = \"hashicorp/kubernetes\"\n    }\n  }\n}\n";
    let body = parse(src);
    assert_eq!(required_providers_name_to_local(&body, "aws"), Some("aws_v6".to_string()));
    assert_eq!(
        required_providers_name_to_local(&body, "kubernetes"),
        Some("k8s".to_string())
    );
}

fn attr(name: &str) -> BuiltinAttr {
    BuiltinAttr { name: name.to_string(), required: false, detail: String::new() }
}

fn block(name: &str) -> BuiltinBlock {
    BuiltinBlock {
        name: name.to_string(),
        detail: String::new(),
        label_placeholder: None,
        required_attrs: Vec::new(),
    }
}

fn test_grammar() -> Language {
    Language {
        builtins: Vec::new(),
        provider_meta: Vec::new(),
        lifecycle_resource: Vec::new(),
        lifecycle_data: Vec::new(),
        meta_attrs: Vec::new(),
        lifecycle_resource_docs: Vec::new(),
        lifecycle_data_docs: Vec::new(),
        condition_docs: Vec::new(),
        tests: vec![
            BuiltinEntry {
                path: vec!["run".to_string()],
                schema: BuiltinSchema {
                    attrs: vec![attr("command"), attr("expect_failures")],
                    blocks: vec![block("assert"), block("variables")],
                },
            },
            BuiltinEntry {
                path: vec!["run".to_string(), "assert".to_string()],
                schema: BuiltinSchema {
                    attrs: vec![attr("condition"), attr("error_message")],
                    blocks: Vec::new(),
                },
            },
        ],
        backends: Vec::new(),
        provider_entry: Vec::new(),
        common_providers: Vec::new(),
        operators: Vec::new(),
        resource_meta_blocks: Vec::new(),
        data_meta_blocks: Vec::new(),
        dynamic_docs: Vec::new(),
        content_doc: String::new(),
        optional_doc: String::new(),
    }
}

#[test]
fn resolve_schema_for_run_offers_command() {
    let lang = test_grammar();
    let schema = tftest_resolve_schema(&lang, &vec!["run".to_string()]).expect("run schema");
    assert!(schema.attrs.iter().any(|a| a.name == "command"));
    assert!(schema.blocks.iter().any(|b| b.name == "assert"));
}

#[test]
fn resolve_schema_descends_into_assert() {
    let lang = test_grammar();
    let schema = tftest_resolve_schema(&lang, &vec!["run".to_string(), "assert".to_string()])
        .expect("assert");
    assert!(schema.attrs.iter().any(|a| a.name == "condition"));
    assert!(schema.attrs.iter().any(|a| a.name == "error_message"));
}

#[test]
fn resolve_schema_rejects_resource() {
    assert!(tftest_resolve_schema(&test_grammar(), &vec!["resource".to_string()]).is_none());
}

#[test]
fn resolve_schema_stops_at_freeform_bodies() {
    let lang = test_grammar();
    let path = vec!["run".to_string(), "variables".to_string()];
    assert!(tftest_resolve_schema(&lang, &path).is_none());
    assert!(tftest_resolve_schema(&lang, &Vec::new()).is_none());
}

#[test]
fn block_path_includes_top_level() {
    let src = "run \"x\" {\n  assert {\n    \n  }\n}\n";
    let body = parse(src);
    let offset = src.find("    \n").expect("blank line") + 4;
    assert_eq!(tftest_block_path(&body, offset), vec!["run", "assert"]);
}

#[test]
fn run_labels_collected_from_body() {
    let src = "run \"first\" {}\nrun \"second\" {}\n";
    let body = parse(src);
    let labels: Vec<String> =
        tftest_run_label_items(Some(&body)).into_iter().map(|i| i.label).collect();
    assert_eq!(labels, vec!["first", "second"]);
}

fn hashicorp(ty: &str) -> ProviderAddress {
    ProviderAddress {
        hostname: "registry.terraform.io".to_string(),
        namespace: "hashicorp".to_string(),
        ty: ty.to_string(),
    }
}

#[test]
fn registry_link_for_resource() {
    let p = hashicorp("aws");
    let link = registry_link(&p, "resources", "aws_instance").expect("link");
    assert_eq!(
        link.as_str(),
        "https://registry.terraform.io/providers/hashicorp/aws/latest/docs/resources/aws_instance"
    );
}

#[test]
fn registry_link_for_data_source() {
    let p = hashicorp("aws");
    let link = registry_link(&p, "data-sources", "aws_ami").expect("link");
    assert!(link.as_str().ends_with("/docs/data-sources/aws_ami"));
}

#[test]
fn non_public_registry_returns_none() {
    let p = ProviderAddress {
        hostname: "private.example.com".to_string(),
        namespace: "acme".to_string(),
        ty: "widget".to_string(),
    };
    assert!(registry_link(&p, "resources", "acme_widget").is_none());
}

#[test]
fn registry_links_are_normalised_by_the_parser() {
    let p = hashicorp("a b");
    let link = registry_link(&p, "resources", "x").expect("link");
    assert_eq!(
        link,
        "https://registry.terraform.io/providers/hashicorp/a%20b/latest/docs/resources/x"
    );
}

#[test]
fn enclosing_block_format_keeps_no_trailing_newline() {
    let src = "variable \"v\" {\n  type = list(string)\n  description = \"x\"\n}\n";
    let body = parse(src);
    let rope = Rope::from_str(src);
    let range = enclosing_block_range(&body, &rope, Position::new(1, 7)).expect("range");
    let slice = slice_text(&rope, range).expect("slice");
    assert!(!slice.ends_with('\n'), "block slice ends at }} (no newline)");
    let formatted =
        "variable \"v\" {\n  type        = list(string)\n  description = \"x\"\n}\n".to_string();
    let edit = match_trailing_newline(formatted, &slice);
    assert!(
        !edit.ends_with('\n'),
        "formatted block must not end with a newline; got:\n{edit:?}"
    );
    assert!(edit.contains("type        = list(string)"));
}

fn default_of(src: &str, name: &str) -> Option<String> {
    collect_variable_defaults(&parse(src))
        .into_iter()
        .find(|(n, _)| n == name)
        .map(|(_, v)| v)
}

#[test]
fn collects_string_default() {
    assert_eq!(
        default_of(r#"variable "region" { default = "us-east-1" }"#, "region"),
        Some("\"us-east-1\"".to_string())
    );
}

#[test]
fn collects_numeric_default() {
    assert_eq!(default_of(r#"variable "count" { default = 3 }"#, "count"), Some("3".to_string()));
}

#[test]
fn skips_non_literal_default() {
    assert_eq!(default_of(r#"variable "x" { default = [1, 2, 3] }"#, "x"), None);
}

#[test]
fn skips_variables_without_default() {
    assert!(collect_variable_defaults(&parse(r#"variable "x" {}"#)).is_empty());
}

fn wide_range() -> Range {
    Range { start: Position::new(0, 0), end: Position::new(9999, 9999) }
}

fn make_hints(src: &str, address: &str) -> Vec<InlayHint> {
    lifecycle_enabled_hints(&parse(src), &Rope::from_str(src), &wide_range(), &uri(address))
}

#[test]
fn enabled_in_tf_file_emits_hint() {
    let hints = make_hints(
        r#"resource "aws_instance" "x" {
              ami = "ami-1"
              lifecycle {
                enabled = true
              }
            }"#,
        "file:///m/main.tf",
    );
    assert_eq!(hints.len(), 1, "got: {hints:?}");
    let h = &hints[0];
    assert!(h.label.contains("OpenTofu"), "label should mention OpenTofu; got {:?}", h.label);
    let tooltip = h.tooltip.as_ref().expect("tooltip");
    assert!(tooltip.contains("OpenTofu"), "tooltip missing 'OpenTofu'");
    assert!(tooltip.contains("count"), "tooltip missing 'count' fallback");
}

#[test]
fn enabled_in_tf_json_file_emits_hint() {
    let hints = make_hints(
        r#"resource "aws_instance" "x" {
              lifecycle {
                enabled = true
              }
            }"#,
        "file:///m/main.tf.json",
    );
    assert_eq!(hints.len(), 1, "got: {hints:?}");
}

#[test]
fn enabled_in_tofu_file_emits_no_hint() {
    let hints = make_hints(
        r#"resource "aws_instance" "x" {
              lifecycle {
                enabled = true
              }
            }"#,
        "file:///m/main.tofu",
    );
    assert!(hints.is_empty(), "got: {hints:?}");
}

#[test]
fn enabled_in_tofu_json_file_emits_no_hint() {
    let hints = make_hints(
        r#"resource "aws_instance" "x" {
              lifecycle {
                enabled = true
              }
            }"#,
        "file:///m/main.tofu.json",
    );
    assert!(hints.is_empty(), "got: {hints:?}");
}

#[test]
fn enabled_in_data_lifecycle_is_also_hinted() {
    let hints = make_hints(
        r#"data "aws_ami" "x" {
              lifecycle {
                enabled = true
              }
            }"#,
        "file:///m/main.tf",
    );
    assert_eq!(hints.len(), 1, "got: {hints:?}");
}

#[test]
fn no_hint_when_enabled_is_absent() {
    let hints = make_hints(
        r#"resource "aws_instance" "x" {
              lifecycle {
                create_before_destroy = true
              }
            }"#,
        "file:///m/main.tf",
    );
    assert!(hints.is_empty(), "got: {hints:?}");
}

fn net_disk() -> DiskView {
    DiskView {
        sources: vec![ResolvedSource {
            dir: "/w".to_string(),
            source: "./modules/net".to_string(),
            target: "/w/modules/net".to_string(),
        }],
        canonical: vec![
            ("/w".to_string(), "/w".to_string()),
            ("/w/modules/net".to_string(), "/w/modules/net".to_string()),
        ],
        listings: Vec::new(),
    }
}

#[test]
fn referenced_dirs_collects_local_path_module_sources() {
    let state = store(vec![document(
        "file:///w/main.tf",
        "module \"net\" { source = \"./modules/net\" }\n",
    )]);
    let referenced = referenced_dirs_in_workspace(&state, &net_disk());
    assert!(
        referenced.contains(&"/w/modules/net".to_string()),
        "precompute missed `./modules/net`: {referenced:?}"
    );
}

#[test]
fn referenced_dirs_skips_registry_sources() {
    let state = store(vec![document(
        "file:///w/main.tf",
        "module \"vpc\" { source = \"terraform-aws-modules/vpc/aws\" }\n",
    )]);
    let referenced = referenced_dirs_in_workspace(&state, &net_disk());
    assert!(
        referenced.is_empty(),
        "registry source leaked into referenced set: {referenced:?}"
    );
}

#[test]
fn fast_path_is_root_matches_slow_path() {
    let state = store(vec![
        document("file:///w/main.tf", "module \"net\" { source = \"./modules/net\" }\n"),
        document("file:///w/modules/net/variables.tf", "variable \"cidr\" {}\n"),
    ]);
    let disk = net_disk();
    let referenced = referenced_dirs_in_workspace(&state, &disk);

    let root = Some("/w".to_string());
    let root_fast = ModuleSnapshot::build(&state, &root, &disk, Some(&referenced));
    let root_slow = ModuleSnapshot::build(&state, &root, &disk, None);
    assert!(root_fast.is_root);
    assert_eq!(root_fast.is_root, root_slow.is_root);

    let child = Some("/w/modules/net".to_string());
    let child_fast = ModuleSnapshot::build(&state, &child, &disk, Some(&referenced));
    let child_slow = ModuleSnapshot::build(&state, &child, &disk, None);
    assert!(!child_fast.is_root);
    assert_eq!(child_fast.is_root, child_slow.is_root);
}

#[test]
fn both_paths_count_a_module_that_calls_itself() {
    let state = store(vec![document("file:///w/main.tf", "module \"me\" { source = \"./\" }\n")]);
    let mut disk = net_disk();
    disk.sources.push(ResolvedSource {
        dir: "/w".to_string(),
        source: "./".to_string(),
        target: "/w".to_string(),
    });
    let referenced = referenced_dirs_in_workspace(&state, &disk);
    let root = Some("/w".to_string());
    let fast = ModuleSnapshot::build(&state, &root, &disk, Some(&referenced));
    let slow = ModuleSnapshot::build(&state, &root, &disk, None);
    assert!(!fast.is_root);
    assert!(!slow.is_root);
}

#[test]
fn fast_path_treats_missing_dir_as_root() {
    let state = store(Vec::new());
    let missing = Some("/nowhere".to_string());
    let snap = ModuleSnapshot::build(&state, &missing, &net_disk(), Some(&Vec::new()));
    assert!(snap.is_root);
}

#[test]
fn fast_path_none_referenced_dirs_uses_slow_fallback() {
    let state = store(vec![document("file:///w/main.tf", "variable \"x\" {}\n")]);
    let snap = ModuleSnapshot::build(&state, &Some("/w".to_string()), &net_disk(), None);
    assert!(snap.is_root, "standalone module must be root");
}

#[test]
fn expressions_start_with_every_namespace() {
    let state = store(vec![document("file:///w/main.tf", "variable \"region\" {}\n")]);
    let items = expression_root_items(&state, &state.documents[0].uri);
    let roots: Vec<(&str, Option<&str>)> = items
        .iter()
        .filter(|i| i.sort_text.as_ref().is_some_and(|s| s.starts_with("2_")))
        .map(|i| (i.label.as_str(), i.insert_text.as_deref()))
        .collect();
    assert_eq!(
        roots,
        vec![
            ("each", Some("each.")),
            ("count", Some("count.")),
            ("path", Some("path.")),
            ("self", Some("self.")),
            ("data", Some("data.")),
            ("terraform", Some("terraform.")),
        ]
    );
}
