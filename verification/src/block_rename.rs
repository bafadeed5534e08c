//! Renames of provider types whose replacement has the same schema.
//!
//! Each rule swaps a block's type label and the head of every reference to
//! it. Where the move of existing state is known to be safe, a `moved` block
//! per renamed resource goes to the module's `moved.tf`.

use crate::actions::{
    actions_view, ops_view, with_edits, CodeAction, CodeActionV, DocumentOp, DocumentOpV, EditMap,
    EditMapV, FileEdits, FileEditsV, FileRef, FileRefV, WorkspaceEdit, WorkspaceEditV,
};
use crate::hcl::{
    block_label, block_pointees, blocks, body_exprs, label_at, list_blocks, pointees,
    walk_expressions, Block, Body, ExprKind, Expression, Operator, Traversal, TraversalOperator,
};
use crate::moved::{collect_existing_moved_pairs, covers, existing_moves, format_moved, moved_block, moves_view, MoveV};
use crate::order::{pair_set, pairs_view, sort_dedup_pairs};
use crate::position::{
    edits_view, hcl_span_to_lsp_range, rope_text, span_range, EditV, Range, TextEdit,
};
use crate::providers::{
    extract_required_provider_version, extract_required_version, required_provider_version,
    required_version,
};
use crate::scope::{
    doc_pointees, for_each_doc_in_scope, intersects, kind_of, plural_suffix, range_intersects,
    scope_docs, scope_kind, scope_label, Scope,
};
use crate::seqs::{
    filter_map, find_map, flat_map, keep, lemma_filter_map_step, lemma_find_map_step,
    lemma_flat_map_step, lemma_keep_step, lemma_take_full, position_from,
};
use crate::state::{in_dir, is_in_dir, DocUri, DocumentState, StateStore};
use crate::target_file::{append_ops, push_append_ops, resolve_target_strategy, target_strategy};
use crate::text::{
    decimal, join, opt_view, starts_with, str_eq, str_join, str_starts_with, texts, u64_text,
};
use ropey::Rope;
use vstd::prelude::*;

verus! {

/// How safe it is to write a `moved` block for a rename.
#[derive(Debug, Clone, Copy, PartialEq, Eq, Structural)]
pub enum StateMigration {
    /// Both names are the same resource in the provider: always safe.
    Aliased,
    /// Different resources with a migration path, which needs a CLI that can
    /// move state across types.
    RequiresTerraform18,
    /// Unknown: the user moves the state.
    Manual,
}

/// One type-rename rule.
#[derive(Debug, Clone, Copy)]
pub struct BlockRenameSpec {
    pub block_kind: &'static str,
    pub from: &'static str,
    pub to: &'static str,
    pub gate_provider: &'static str,
    pub gate_threshold: &'static str,
    pub state_migration: StateMigration,
}

/// The model of a rule.
pub struct SpecV {
    pub block_kind: Seq<char>,
    pub from: Seq<char>,
    pub to: Seq<char>,
    pub gate_provider: Seq<char>,
    pub gate_threshold: Seq<char>,
    pub state_migration: StateMigration,
}

impl View for BlockRenameSpec {
    type V = SpecV;

    open spec fn view(&self) -> SpecV {
        SpecV {
            block_kind: self.block_kind@,
            from: self.from@,
            to: self.to@,
            gate_provider: self.gate_provider@,
            gate_threshold: self.gate_threshold@,
            state_migration: self.state_migration,
        }
    }
}

impl BlockRenameSpec {
    /// Only resources bear state.
    pub fn is_resource(&self) -> (r: bool)
        ensures
            r == (self.block_kind@ == "resource"@),
    {
        str_eq(self.block_kind, "resource")
    }
}

pub open spec fn aliased_spec(from: Seq<char>, to: Seq<char>) -> SpecV {
    SpecV {
        block_kind: "resource"@,
        from,
        to,
        gate_provider: "aws"@,
        gate_threshold: "1.7.0"@,
        state_migration: StateMigration::Aliased,
    }
}

pub open spec fn versioned_spec(from: Seq<char>) -> SpecV {
    SpecV {
        block_kind: "resource"@,
        from,
        to: ""@,
        gate_provider: "kubernetes"@,
        gate_threshold: "2.0.0"@,
        state_migration: StateMigration::Manual,
    }
}

/// A rename between two names of one AWS resource.
fn aws_aliased(from: &'static str, to: &'static str) -> (r: BlockRenameSpec)
    ensures
        r@ == aliased_spec(from@, to@),
{
    BlockRenameSpec {
        block_kind: "resource",
        from,
        to,
        gate_provider: "aws",
        gate_threshold: "1.7.0",
        state_migration: StateMigration::Aliased,
    }
}

/// A rename to the `_v1` variant of a Kubernetes resource.
fn k8s_v1(from: &'static str) -> (r: BlockRenameSpec)
    ensures
        r@ == versioned_spec(from@),
{
    BlockRenameSpec {
        block_kind: "resource",
        from,
        to: "",
        gate_provider: "kubernetes",
        gate_threshold: "2.0.0",
        state_migration: StateMigration::Manual,
    }
}

/// All rename rules.
pub open spec fn rename_table() -> Seq<SpecV> {
    seq![
        aliased_spec("aws_alb"@, "aws_lb"@),
        aliased_spec("aws_alb_listener"@, "aws_lb_listener"@),
        aliased_spec("aws_alb_listener_rule"@, "aws_lb_listener_rule"@),
        aliased_spec("aws_alb_target_group"@, "aws_lb_target_group"@),
        aliased_spec("aws_alb_target_group_attachment"@, "aws_lb_target_group_attachment"@),
        SpecV {
            block_kind: "resource"@,
            from: "aws_s3_bucket_object"@,
            to: "aws_s3_object"@,
            gate_provider: "aws"@,
            gate_threshold: "4.0.0"@,
            state_migration: StateMigration::RequiresTerraform18,
        },
        versioned_spec("kubernetes_pod"@),
        versioned_spec("kubernetes_deployment"@),
        versioned_spec("kubernetes_service"@),
        versioned_spec("kubernetes_namespace"@),
        versioned_spec("kubernetes_config_map"@),
        versioned_spec("kubernetes_secret"@),
        versioned_spec("kubernetes_role"@),
        versioned_spec("kubernetes_role_binding"@),
        versioned_spec("kubernetes_cluster_role"@),
        versioned_spec("kubernetes_cluster_role_binding"@),
        versioned_spec("kubernetes_persistent_volume"@),
        versioned_spec("kubernetes_persistent_volume_claim"@),
        versioned_spec("kubernetes_service_account"@),
        versioned_spec("kubernetes_stateful_set"@),
        versioned_spec("kubernetes_daemonset"@),
        versioned_spec("kubernetes_job"@),
        versioned_spec("kubernetes_cron_job"@),
        versioned_spec("kubernetes_network_policy"@),
        versioned_spec("kubernetes_ingress"@),
        versioned_spec("kubernetes_horizontal_pod_autoscaler"@),
    ]
}

pub open spec fn specs_view(v: Seq<BlockRenameSpec>) -> Seq<SpecV> {
    Seq::new(v.len(), |i: int| v[i]@)
}

/// All rename rules.
pub fn all_block_renames() -> (r: Vec<BlockRenameSpec>)
    ensures
        specs_view(r@) == rename_table(),
{
    let v = vec![
        aws_aliased("aws_alb", "aws_lb"),
        aws_aliased("aws_alb_listener", "aws_lb_listener"),
        aws_aliased("aws_alb_listener_rule", "aws_lb_listener_rule"),
        aws_aliased("aws_alb_target_group", "aws_lb_target_group"),
        aws_aliased("aws_alb_target_group_attachment", "aws_lb_target_group_attachment"),
        BlockRenameSpec {
            block_kind: "resource",
            from: "aws_s3_bucket_object",
            to: "aws_s3_object",
            gate_provider: "aws",
            gate_threshold: "4.0.0",
            state_migration: StateMigration::RequiresTerraform18,
        },
        k8s_v1("kubernetes_pod"),
        k8s_v1("kubernetes_deployment"),
        k8s_v1("kubernetes_service"),
        k8s_v1("kubernetes_namespace"),
        k8s_v1("kubernetes_config_map"),
        k8s_v1("kubernetes_secret"),
        k8s_v1("kubernetes_role"),
        k8s_v1("kubernetes_role_binding"),
        k8s_v1("kubernetes_cluster_role"),
        k8s_v1("kubernetes_cluster_role_binding"),
        k8s_v1("kubernetes_persistent_volume"),
        k8s_v1("kubernetes_persistent_volume_claim"),
        k8s_v1("kubernetes_service_account"),
        k8s_v1("kubernetes_stateful_set"),
        k8s_v1("kubernetes_daemonset"),
        k8s_v1("kubernetes_job"),
        k8s_v1("kubernetes_cron_job"),
        k8s_v1("kubernetes_network_policy"),
        k8s_v1("kubernetes_ingress"),
        k8s_v1("kubernetes_horizontal_pod_autoscaler"),
    ];
    assert(specs_view(v@) =~= rename_table());
    v
}

/// The name that a rule renames to: for Kubernetes the old one with `_v1`.
pub open spec fn renamed(spec: SpecV) -> Seq<char> {
    if spec.to.len() == 0 && starts_with(spec.from, "kubernetes_"@) {
        spec.from + "_v1"@
    } else {
        spec.to
    }
}

pub fn resolved_to(spec: &BlockRenameSpec) -> (r: String)
    ensures
        r@ == renamed(spec@),
{
    if spec.to.is_empty() && str_starts_with(spec.from, "kubernetes_") {
        let mut out = spec.from.to_owned();
        out.append("_v1");
        out
    } else {
        spec.to.to_owned()
    }
}

pub open spec fn rule_for(kind: Seq<char>, from: Seq<char>) -> spec_fn(SpecV) -> bool {
    |s: SpecV| s.block_kind == kind && s.from == from
}

pub open spec fn rule_from(from: Seq<char>) -> spec_fn(SpecV) -> bool {
    |s: SpecV| s.from == from
}

/// The rule for a block kind and type.
fn find_rule(table: &Vec<BlockRenameSpec>, kind: &str, from: &str) -> (r: Option<usize>)
    requires
        specs_view(table@) == rename_table(),
    ensures
        match r {
            Some(i) => position_from(rename_table(), rule_for(kind@, from@), 0) == Some(i as int)
                && i < table@.len(),
            None => position_from(rename_table(), rule_for(kind@, from@), 0) is None,
        },
{
    let ghost p = rule_for(kind@, from@);
    for i in 0..table.len()
        invariant
            specs_view(table@) == rename_table(),
            p == rule_for(kind@, from@),
            position_from(rename_table(), p, 0) == position_from(rename_table(), p, i as int),
    {
        assert(rename_table()[i as int] == specs_view(table@)[i as int]);
        assert(specs_view(table@).len() == rename_table().len());
        if str_eq(table[i].block_kind, kind) && str_eq(table[i].from, from) {
            return Some(i);
        }
    }
    assert(specs_view(table@).len() == rename_table().len());
    None
}

/// The rule for a type, of whatever kind.
fn find_rule_from(table: &Vec<BlockRenameSpec>, from: &str) -> (r: Option<usize>)
    requires
        specs_view(table@) == rename_table(),
    ensures
        match r {
            Some(i) => position_from(rename_table(), rule_from(from@), 0) == Some(i as int) && i
                < table@.len(),
            None => position_from(rename_table(), rule_from(from@), 0) is None,
        },
{
    let ghost p = rule_from(from@);
    for i in 0..table.len()
        invariant
            specs_view(table@) == rename_table(),
            p == rule_from(from@),
            position_from(rename_table(), p, 0) == position_from(rename_table(), p, i as int),
    {
        assert(rename_table()[i as int] == specs_view(table@)[i as int]);
        assert(specs_view(table@).len() == rename_table().len());
        if str_eq(table[i].from, from) {
            return Some(i);
        }
    }
    assert(specs_view(table@).len() == rename_table().len());
    None
}

/// The index of a rule in the table.
pub fn spec_index(spec: &BlockRenameSpec) -> (r: usize)
    ensures
        r == match position_from(rename_table(), rule_for(spec@.block_kind, spec@.from), 0) {
            Some(i) => i,
            None => 0,
        },
{
    let table = all_block_renames();
    match find_rule(&table, spec.block_kind, spec.from) {
        Some(i) => i,
        None => 0,
    }
}

// ---------------------------------------------------------------------
// Version gates

/// What the version-constraint evaluator says of a constraint and a floor.
#[derive(Debug, Clone, Copy, PartialEq, Eq, Structural)]
pub enum GateOutcome {
    /// The text holds no constraint.
    Empty,
    /// No lowest version is admitted.
    NoMinimum,
    /// The lowest admitted version is at least the floor, or it is not.
    Minimum { at_least: bool },
}

/// One answer of the evaluator.
#[derive(Debug)]
pub struct VersionGate {
    pub constraint: String,
    pub floor: String,
    pub outcome: GateOutcome,
}

pub open spec fn gate_for(constraint: Seq<char>, floor: Seq<char>) -> spec_fn(VersionGate) -> Option<
    GateOutcome,
> {
    |g: VersionGate|
        if g.constraint@ == constraint && g.floor@ == floor {
            Some(g.outcome)
        } else {
            None
        }
}

/// The evaluator's answer; without one no lowest version is taken as known.
pub open spec fn gate_outcome(
    gates: Seq<VersionGate>,
    constraint: Seq<char>,
    floor: Seq<char>,
) -> GateOutcome {
    match find_map(gates, gate_for(constraint, floor)) {
        Some(o) => o,
        None => GateOutcome::NoMinimum,
    }
}

fn lookup_gate(gates: &Vec<VersionGate>, constraint: &str, floor: &str) -> (r: GateOutcome)
    ensures
        r == gate_outcome(gates@, constraint@, floor@),
{
    let ghost f = gate_for(constraint@, floor@);
    proof {
        lemma_take_full(gates@);
    }
    for i in 0..gates.len()
        invariant
            f == gate_for(constraint@, floor@),
            find_map(gates@, f) == find_map(gates@.skip(i as int), f),
    {
        proof {
            lemma_find_map_step(gates@, f, i as int);
        }
        if str_eq(gates[i].constraint.as_str(), constraint) && str_eq(
            gates[i].floor.as_str(),
            floor,
        ) {
            return gates[i].outcome;
        }
    }
    GateOutcome::NoMinimum
}

/// The constraint that a document of the module puts on a provider.
pub open spec fn doc_provider_constraint(dir: Seq<char>, provider: Seq<char>) -> spec_fn(
    DocumentState,
) -> Option<Seq<char>> {
    |d: DocumentState|
        if in_dir(d, dir) {
            match d.body {
                Some(b) => required_provider_version(b, provider),
                None => None,
            }
        } else {
            None
        }
}

/// All constraints of the module on a provider, joined.
pub open spec fn provider_constraint(docs: Seq<DocumentState>, dir: Seq<char>, provider: Seq<char>) -> Option<
    Seq<char>,
> {
    let parts = filter_map(docs, doc_provider_constraint(dir, provider));
    if parts.len() == 0 {
        None
    } else {
        Some(join(parts, ", "@))
    }
}

/// The module's constraint on a provider: those of its files, joined.
pub fn module_constraint_for_provider_dir(
    state: &StateStore,
    module_dir: &str,
    provider_name: &str,
) -> (r: Option<String>)
    ensures
        opt_view(r) == provider_constraint(state.documents@, module_dir@, provider_name@),
{
    let mut parts: Vec<String> = Vec::new();
    let ghost f = doc_provider_constraint(module_dir@, provider_name@);
    proof {
        lemma_take_full(state.documents@);
    }
    assert(texts(parts@) =~= filter_map(state.documents@.take(0), f));
    for i in 0..state.documents.len()
        invariant
            f == doc_provider_constraint(module_dir@, provider_name@),
            texts(parts@) == filter_map(state.documents@.take(i as int), f),
    {
        proof {
            lemma_filter_map_step(state.documents@, f, i as int);
        }
        let ghost before = texts(parts@);
        if is_in_dir(&state.documents[i], module_dir) {
            if let Some(body) = &state.documents[i].body {
                if let Some(s) = extract_required_provider_version(body, provider_name) {
                    parts.push(s);
                    assert(texts(parts@) =~= before.push(s@));
                }
            }
        }
    }
    assert(texts(parts@).len() == parts@.len());
    if parts.len() == 0 {
        None
    } else {
        Some(str_join(&parts, ", "))
    }
}

pub open spec fn doc_required_version(dir: Seq<char>) -> spec_fn(DocumentState) -> Option<
    Seq<char>,
> {
    |d: DocumentState|
        if in_dir(d, dir) {
            match d.body {
                Some(b) => required_version(b),
                None => None,
            }
        } else {
            None
        }
}

/// All `required_version` constraints of the module, joined.
pub open spec fn cli_constraint(docs: Seq<DocumentState>, dir: Seq<char>) -> Option<Seq<char>> {
    let parts = filter_map(docs, doc_required_version(dir));
    if parts.len() == 0 {
        None
    } else {
        Some(join(parts, ", "@))
    }
}

/// The module's constraint on the CLI: those of its files, joined.
pub fn module_cli_constraint(state: &StateStore, module_dir: &str) -> (r: Option<String>)
    ensures
        opt_view(r) == cli_constraint(state.documents@, module_dir@),
{
    let mut parts: Vec<String> = Vec::new();
    let ghost f = doc_required_version(module_dir@);
    proof {
        lemma_take_full(state.documents@);
    }
    assert(texts(parts@) =~= filter_map(state.documents@.take(0), f));
    for i in 0..state.documents.len()
        invariant
            f == doc_required_version(module_dir@),
            texts(parts@) == filter_map(state.documents@.take(i as int), f),
    {
        proof {
            lemma_filter_map_step(state.documents@, f, i as int);
        }
        let ghost before = texts(parts@);
        if is_in_dir(&state.documents[i], module_dir) {
            if let Some(body) = &state.documents[i].body {
                if let Some(s) = extract_required_version(body) {
                    parts.push(s);
                    assert(texts(parts@) =~= before.push(s@));
                }
            }
        }
    }
    assert(texts(parts@).len() == parts@.len());
    if parts.len() == 0 {
        None
    } else {
        Some(str_join(&parts, ", "))
    }
}

/// A rule applies in a module whose provider constraint, where it has one,
/// admits no version below the rule's threshold.
pub open spec fn admitted(
    docs: Seq<DocumentState>,
    gates: Seq<VersionGate>,
    dir: Seq<char>,
    spec: SpecV,
) -> bool {
    match provider_constraint(docs, dir, spec.gate_provider) {
        None => true,
        Some(c) => match gate_outcome(gates, c, spec.gate_threshold) {
            GateOutcome::Empty => true,
            GateOutcome::NoMinimum => false,
            GateOutcome::Minimum { at_least } => at_least,
        },
    }
}

/// For each rule, whether it applies in a module.
pub open spec fn supported_specs(
    docs: Seq<DocumentState>,
    gates: Seq<VersionGate>,
    dir: Seq<char>,
) -> Seq<bool> {
    Seq::new(rename_table().len(), |i: int| admitted(docs, gates, dir, rename_table()[i]))
}

/// For each rule, whether it applies in a module.
pub fn compute_supported_specs(state: &StateStore, gates: &Vec<VersionGate>, module_dir: &str) -> (r:
    Vec<bool>)
    ensures
        r@ == supported_specs(state.documents@, gates@, module_dir@),
{
    let table = all_block_renames();
    let mut out: Vec<bool> = Vec::new();
    assert(specs_view(table@).len() == rename_table().len());
    for i in 0..table.len()
        invariant
            specs_view(table@) == rename_table(),
            specs_view(table@).len() == rename_table().len(),
            out@.len() == i,
            forall|j: int|
                0 <= j < i ==> out@[j] == admitted(
                    state.documents@,
                    gates@,
                    module_dir@,
                    #[trigger] rename_table()[j],
                ),
    {
        assert(rename_table()[i as int] == specs_view(table@)[i as int]);
        let ok = match module_constraint_for_provider_dir(
            state,
            module_dir,
            table[i].gate_provider,
        ) {
            None => true,
            Some(c) => match lookup_gate(gates, c.as_str(), table[i].gate_threshold) {
                GateOutcome::Empty => true,
                GateOutcome::NoMinimum => false,
                GateOutcome::Minimum { at_least } => at_least,
            },
        };
        out.push(ok);
    }
    assert(out@ =~= supported_specs(state.documents@, gates@, module_dir@));
    out
}

/// The module's `required_version` admits no CLI below `floor`. Without a
/// constraint nothing is promised.
pub open spec fn cli_at_least(
    docs: Seq<DocumentState>,
    gates: Seq<VersionGate>,
    dir: Seq<char>,
    floor: Seq<char>,
) -> bool {
    match cli_constraint(docs, dir) {
        None => false,
        Some(c) => gate_outcome(gates, c, floor) == GateOutcome::Minimum { at_least: true },
    }
}

pub fn module_admits_terraform_at_least(
    state: &StateStore,
    gates: &Vec<VersionGate>,
    module_dir: &str,
    floor: &str,
) -> (r: bool)
    ensures
        r == cli_at_least(state.documents@, gates@, module_dir@, floor@),
{
    match module_cli_constraint(state, module_dir) {
        None => false,
        Some(c) => match lookup_gate(gates, c.as_str(), floor) {
            GateOutcome::Minimum { at_least } => at_least,
            _ => false,
        },
    }
}

// ---------------------------------------------------------------------
// Rewrites

/// A renamed block: the rule, the block's name and the edit of its type label.
pub struct BlockRewrite {
    pub rule: usize,
    pub name: String,
    pub edit: TextEdit,
}

pub struct BlockRewriteV {
    pub rule: int,
    pub name: Seq<char>,
    pub edit: EditV,
}

impl View for BlockRewrite {
    type V = BlockRewriteV;

    open spec fn view(&self) -> BlockRewriteV {
        BlockRewriteV { rule: self.rule as int, name: self.name@, edit: self.edit@ }
    }
}

pub open spec fn rewrites_view(v: Seq<BlockRewrite>) -> Seq<BlockRewriteV> {
    Seq::new(v.len(), |i: int| v[i]@)
}

/// The rewrite of a block that an applicable rule names.
pub open spec fn block_rewrite(t: Seq<char>, supported: Seq<bool>) -> spec_fn(Block) -> Option<
    BlockRewriteV,
> {
    |b: Block|
        match (label_at(b, 0), label_at(b, 1)) {
            (Some(ty), Some(name)) => match position_from(
                rename_table(),
                rule_for(b.ident.text@, ty),
                0,
            ) {
                Some(i) => if supported[i] && b.labels@[0].span is Some {
                    match span_range(t, b.labels@[0].span->0) {
                        Some(range) => Some(
                            BlockRewriteV {
                                rule: i,
                                name,
                                edit: EditV {
                                    range,
                                    new_text: "\""@ + renamed(rename_table()[i]) + "\""@,
                                },
                            },
                        ),
                        None => None,
                    }
                } else {
                    None
                },
                None => None,
            },
            _ => None,
        }
}

/// The label rewrites of a body.
pub open spec fn block_rewrites(body: Body, t: Seq<char>, supported: Seq<bool>) -> Seq<
    BlockRewriteV,
> {
    filter_map(blocks(body), block_rewrite(t, supported))
}

fn rewrite_block(b: &Block, rope: &Rope, table: &Vec<BlockRenameSpec>, supported: &Vec<bool>) -> (r:
    Option<BlockRewrite>)
    requires
        specs_view(table@) == rename_table(),
        supported@.len() == rename_table().len(),
    ensures
        match r {
            Some(x) => block_rewrite(rope_text(*rope), supported@)(*b) == Some(x@),
            None => block_rewrite(rope_text(*rope), supported@)(*b) is None,
        },
{
    let ty = match block_label(b, 0) {
        Some(s) => s,
        None => {
            return None;
        },
    };
    let name = match block_label(b, 1) {
        Some(s) => s,
        None => {
            return None;
        },
    };
    assert(specs_view(table@).len() == rename_table().len());
    let i: usize = match find_rule(table, b.ident.text.as_str(), ty) {
        Some(i) => i,
        None => {
            return None;
        },
    };
    assert(rename_table()[i as int] == specs_view(table@)[i as int]);
    if !supported[i] {
        return None;
    }
    let span = match b.labels[0].span {
        Some(s) => s,
        None => {
            return None;
        },
    };
    let range = match hcl_span_to_lsp_range(rope, span) {
        Some(r) => r,
        None => {
            return None;
        },
    };
    let to = resolved_to(&table[i]);
    let mut new_text = "\"".to_owned();
    new_text.append(to.as_str());
    new_text.append("\"");
    Some(BlockRewrite { rule: i, name: name.to_owned(), edit: TextEdit { range, new_text } })
}

/// The label rewrites of a body.
pub fn scan_block_rewrites(body: &Body, rope: &Rope, supported: &Vec<bool>) -> (r: Vec<
    BlockRewrite,
>)
    requires
        supported@.len() == rename_table().len(),
    ensures
        rewrites_view(r@) == block_rewrites(*body, rope_text(*rope), supported@),
{
    let table = all_block_renames();
    let bs = list_blocks(body);
    let ghost s = blocks(*body);
    let ghost f = block_rewrite(rope_text(*rope), supported@);
    let mut out: Vec<BlockRewrite> = Vec::new();
    proof {
        lemma_take_full(s);
    }
    assert(rewrites_view(out@) =~= filter_map(s.take(0), f));
    for i in 0..bs.len()
        invariant
            specs_view(table@) == rename_table(),
            supported@.len() == rename_table().len(),
            block_pointees(bs@) == s,
            f == block_rewrite(rope_text(*rope), supported@),
            rewrites_view(out@) == filter_map(s.take(i as int), f),
    {
        proof {
            lemma_filter_map_step(s, f, i as int);
            assert(s[i as int] == *bs@[i as int]);
        }
        let ghost before = rewrites_view(out@);
        if let Some(x) = rewrite_block(bs[i], rope, &table, supported) {
            out.push(x);
            assert(rewrites_view(out@) =~= before.push(x@));
        }
    }
    out
}

/// The step names an attribute.
pub open spec fn is_get_attr(op: Operator) -> bool {
    op.kind is GetAttr
}

pub open spec fn has_get_attr(ops: Seq<Operator>) -> bool {
    exists|i: int| 0 <= i < ops.len() && is_get_attr(#[trigger] ops[i])
}

/// The rewrite of the head of a reference that an applicable rule names.
pub open spec fn ref_rewrite(t: Seq<char>, supported: Seq<bool>) -> spec_fn(Expression) -> Option<
    EditV,
> {
    |e: Expression|
        match e.kind {
            ExprKind::Traversal(tr) => match tr.expr.kind {
                ExprKind::Variable(head) => match position_from(
                    rename_table(),
                    rule_from(head@),
                    0,
                ) {
                    Some(i) => if supported[i] && has_get_attr(tr.operators@) && tr.expr.span
                        is Some {
                        match span_range(t, tr.expr.span->0) {
                            Some(range) => Some(
                                EditV { range, new_text: renamed(rename_table()[i]) },
                            ),
                            None => None,
                        }
                    } else {
                        None
                    },
                    None => None,
                },
                _ => None,
            },
            _ => None,
        }
}

/// The reference rewrites of a body.
pub open spec fn ref_rewrites(body: Body, t: Seq<char>, supported: Seq<bool>) -> Seq<EditV> {
    filter_map(body_exprs(body), ref_rewrite(t, supported))
}

pub fn any_get_attr(ops: &Vec<Operator>) -> (r: bool)
    ensures
        r == has_get_attr(ops@),
{
    for i in 0..ops.len()
        invariant
            forall|j: int| 0 <= j < i ==> !is_get_attr(#[trigger] ops@[j]),
    {
        if let TraversalOperator::GetAttr(_) = ops[i].kind {
            assert(is_get_attr(ops@[i as int]));
            return true;
        }
    }
    false
}

fn rewrite_ref(e: &Expression, rope: &Rope, table: &Vec<BlockRenameSpec>, supported: &Vec<bool>) -> (r:
    Option<TextEdit>)
    requires
        specs_view(table@) == rename_table(),
        supported@.len() == rename_table().len(),
    ensures
        match r {
            Some(x) => ref_rewrite(rope_text(*rope), supported@)(*e) == Some(x@),
            None => ref_rewrite(rope_text(*rope), supported@)(*e) is None,
        },
{
    if let ExprKind::Traversal(tr) = &e.kind {
        if let ExprKind::Variable(head) = &tr.expr.kind {
            assert(specs_view(table@).len() == rename_table().len());
            if let Some(i) = find_rule_from(table, head.as_str()) {
                assert(rename_table()[i as int] == specs_view(table@)[i as int]);
                if supported[i] && any_get_attr(&tr.operators) {
                    if let Some(span) = tr.expr.span {
                        if let Some(range) = hcl_span_to_lsp_range(rope, span) {
                            return Some(TextEdit { range, new_text: resolved_to(&table[i]) });
                        }
                    }
                }
            }
        }
    }
    None
}

/// The reference rewrites of a body.
pub fn scan_ref_rewrites(body: &Body, rope: &Rope, supported: &Vec<bool>) -> (r: Vec<TextEdit>)
    requires
        supported@.len() == rename_table().len(),
    ensures
        edits_view(r@) == ref_rewrites(*body, rope_text(*rope), supported@),
{
    let table = all_block_renames();
    let es = walk_expressions(body);
    let ghost s = body_exprs(*body);
    let ghost f = ref_rewrite(rope_text(*rope), supported@);
    let mut out: Vec<TextEdit> = Vec::new();
    proof {
        lemma_take_full(s);
    }
    assert(edits_view(out@) =~= filter_map(s.take(0), f));
    for i in 0..es.len()
        invariant
            specs_view(table@) == rename_table(),
            supported@.len() == rename_table().len(),
            pointees(es@) == s,
            f == ref_rewrite(rope_text(*rope), supported@),
            edits_view(out@) == filter_map(s.take(i as int), f),
    {
        proof {
            lemma_filter_map_step(s, f, i as int);
            assert(s[i as int] == *es@[i as int]);
        }
        let ghost before = edits_view(out@);
        if let Some(x) = rewrite_ref(es[i], rope, &table, supported) {
            out.push(x);
            assert(edits_view(out@) =~= before.push(x@));
        }
    }
    out
}

// ---------------------------------------------------------------------
// The workspace edit

/// Per module directory, the renamed resources as rule and name.
pub type MoveMapV = Seq<(Seq<char>, Seq<(int, Seq<char>)>)>;

pub struct MoveMap {
    pub entries: Vec<(String, Vec<(usize, String)>)>,
}

impl View for MoveMap {
    type V = MoveMapV;

    open spec fn view(&self) -> MoveMapV {
        Seq::new(
            self.entries@.len(),
            |i: int| (self.entries@[i].0@, pairs_view(self.entries@[i].1@)),
        )
    }
}

pub open spec fn is_dir_entry(dir: Seq<char>) -> spec_fn(
    (Seq<char>, Seq<(int, Seq<char>)>),
) -> bool {
    |e: (Seq<char>, Seq<(int, Seq<char>)>)| e.0 == dir
}

/// `m` with the moves appended to the entry for `dir`, a new entry where
/// there is none.
pub open spec fn with_moves(m: MoveMapV, dir: Seq<char>, moves: Seq<(int, Seq<char>)>) -> MoveMapV {
    match position_from(m, is_dir_entry(dir), 0) {
        Some(i) => m.update(i, (m[i].0, m[i].1 + moves)),
        None => m.push((dir, moves)),
    }
}

impl MoveMap {
    fn add(&mut self, dir: &str, moves: Vec<(usize, String)>)
        ensures
            final(self)@ == with_moves(old(self)@, dir@, pairs_view(moves@)),
    {
        let ghost added = pairs_view(moves@);
        let mut rest = moves;
        let ghost m = self@;
        let ghost p = is_dir_entry(dir@);
        let n: usize = self.entries.len();
        let mut i: usize = 0;
        while i < n
            invariant
                i <= n,
                n == self.entries@.len(),
                self@ == m,
                m == old(self)@,
                p == is_dir_entry(dir@),
                position_from(m, p, 0) == position_from(m, p, i as int),
                pairs_view(rest@) == added,
                added == pairs_view(moves@),
            decreases n - i,
        {
            assert(m[i as int].0 == self.entries@[i as int].0@);
            if str_eq(self.entries[i].0.as_str(), dir) {
                let ghost before = self.entries@[i as int].1@;
                self.entries[i].1.append(&mut rest);
                assert(pairs_view(self.entries@[i as int].1@) =~= pairs_view(before) + added);
                assert(self@ =~= m.update(i as int, (m[i as int].0, m[i as int].1 + added)));
                return;
            }
            i += 1;
        }
        self.entries.push((dir.to_owned(), rest));
        assert(self@ =~= m.push((dir@, added)));
    }
}

/// A rename that no `moved` block covers yet.
pub open spec fn not_covered(existing: Seq<MoveV>) -> spec_fn((int, Seq<char>)) -> bool {
    |e: (int, Seq<char>)|
        0 <= e.0 < rename_table().len() && !existing.contains(
            (rename_table()[e.0].from, renamed(rename_table()[e.0]), e.1),
        )
}

/// The renames of a module that need a `moved` block, in order and each once.
pub open spec fn moves_to_add(existing: Seq<MoveV>, entries: Seq<(int, Seq<char>)>) -> Seq<
    (int, Seq<char>),
> {
    keep(pair_set(entries), not_covered(existing))
}

pub open spec fn move_text() -> spec_fn((int, Seq<char>)) -> Seq<char> {
    |e: (int, Seq<char>)|
        moved_block(rename_table()[e.0].from, renamed(rename_table()[e.0]), e.1)
}

/// The steps that write a module's `moved` blocks.
pub open spec fn module_ops(state: StateStore) -> spec_fn(
    (Seq<char>, Seq<(int, Seq<char>)>),
) -> Seq<DocumentOpV> {
    |m: (Seq<char>, Seq<(int, Seq<char>)>)|
        {
            let add = moves_to_add(existing_moves(state.documents@, m.0), m.1);
            if add.len() == 0 {
                Seq::empty()
            } else {
                append_ops(
                    target_strategy(state, m.0, "moved.tf"@),
                    m.0,
                    "moved.tf"@,
                    flat_map(add, move_text()),
                )
            }
        }
}

/// The step that edits one document.
pub open spec fn rewrite_op(e: (Seq<char>, Seq<EditV>)) -> DocumentOpV {
    DocumentOpV::Edit(FileEditsV { file: FileRefV::Uri(e.0), edits: e.1 })
}

/// One step per rewritten document.
pub open spec fn rewrite_ops(m: EditMapV) -> Seq<DocumentOpV> {
    Seq::new(m.len(), |i: int| rewrite_op(m[i]))
}

/// The `moved` blocks of each module, then the rewrites of each document.
pub open spec fn rename_ops(state: StateStore, rewrites: EditMapV, renames: MoveMapV) -> Seq<
    DocumentOpV,
> {
    flat_map(renames, module_ops(state)) + rewrite_ops(rewrites)
}

/// The text of the `moved` blocks that a module still needs, or `None`.
fn module_moved_text(state: &StateStore, dir: &str, entries: &Vec<(usize, String)>) -> (r: Option<
    String,
>)
    ensures
        ({
            let add = moves_to_add(existing_moves(state.documents@, dir@), pairs_view(entries@));
            match r {
                Some(t) => add.len() > 0 && t@ == flat_map(add, move_text()),
                None => add.len() == 0,
            }
        }),
{
    let table = all_block_renames();
    let sorted = sort_dedup_pairs(entries);
    let existing = collect_existing_moved_pairs(state, dir);
    let ghost ex = existing_moves(state.documents@, dir@);
    let ghost s = pairs_view(sorted@);
    let ghost p = not_covered(ex);
    let ghost g = move_text();
    let mut text = String::new();
    let mut any = false;
    proof {
        lemma_take_full(s);
    }
    assert(text@ =~= flat_map(keep(s.take(0), p), g));
    assert(specs_view(table@).len() == rename_table().len());
    for i in 0..sorted.len()
        invariant
            specs_view(table@) == rename_table(),
            specs_view(table@).len() == rename_table().len(),
            moves_view(existing@) == ex,
            s == pairs_view(sorted@),
            p == not_covered(ex),
            g == move_text(),
            any == (keep(s.take(i as int), p).len() > 0),
            text@ == flat_map(keep(s.take(i as int), p), g),
    {
        proof {
            lemma_keep_step(s, p, i as int);
            assert(s[i as int] == (sorted@[i as int].0 as int, sorted@[i as int].1@));
        }
        let rule: usize = sorted[i].0;
        if rule < table.len() {
            assert(rename_table()[rule as int] == specs_view(table@)[rule as int]);
            let to = resolved_to(&table[rule]);
            let name = sorted[i].1.as_str();
            if !covers(&existing, table[rule].from, to.as_str(), name) {
                text.append(format_moved(table[rule].from, to.as_str(), name).as_str());
                any = true;
                proof {
                    let k = keep(s.take(i + 1), p);
                    assert(k.drop_last() =~= keep(s.take(i as int), p));
                    assert(k.last() == s[i as int]);
                }
            }
        }
    }
    if any {
        Some(text)
    } else {
        None
    }
}

/// The workspace edit for a set of rewrites: the `moved` blocks that are not
/// there yet, then the rewrites.
pub fn build_workspace_edit(state: &StateStore, rewrites: EditMap, renames: &MoveMap) -> (r:
    WorkspaceEdit)
    ensures
        r@ == WorkspaceEditV::Operations(rename_ops(*state, rewrites@, renames@)),
{
    let mut ops: Vec<DocumentOp> = Vec::new();
    let ghost f = module_ops(*state);
    let ghost ms = renames@;
    proof {
        lemma_take_full(ms);
    }
    assert(ops_view(ops@) =~= flat_map(ms.take(0), f));
    for i in 0..renames.entries.len()
        invariant
            ms == renames@,
            f == module_ops(*state),
            ops_view(ops@) == flat_map(ms.take(i as int), f),
    {
        proof {
            lemma_flat_map_step(ms, f, i as int);
            assert(ms[i as int].0 == renames.entries@[i as int].0@);
        }
        let ghost start = ops_view(ops@);
        let dir = renames.entries[i].0.as_str();
        match module_moved_text(state, dir, &renames.entries[i].1) {
            Some(text) => {
                let strategy = resolve_target_strategy(state, dir, "moved.tf");
                push_append_ops(&mut ops, strategy, dir, "moved.tf", text.as_str());
            },
            None => {
                assert(ops_view(ops@) =~= start + f(ms[i as int]));
            },
        }
    }
    let ghost moved = ops_view(ops@);
    push_rewrite_ops(&mut ops, rewrites);
    WorkspaceEdit::Operations(ops)
}

/// One step per rewritten document.
pub fn push_rewrite_ops(ops: &mut Vec<DocumentOp>, rewrites: EditMap)
    ensures
        ops_view(final(ops)@) == ops_view(old(ops)@) + rewrite_ops(rewrites@),
{
    let ghost start = ops_view(ops@);
    let ghost m = rewrites@;
    let mut entries = rewrites.entries;
    let ghost orig = entries@;
    let n: usize = entries.len();
    let mut i: usize = 0;
    assert(ops_view(ops@) =~= start + rewrite_ops(m).take(0));
    while i < n
        invariant
            i <= n,
            n == m.len(),
            orig.len() == n,
            entries@ == orig.skip(i as int),
            forall|j: int|
                0 <= j < n ==> #[trigger] m[j] == (orig[j].0@, edits_view(orig[j].1@)),
            ops_view(ops@) == start + rewrite_ops(m).take(i as int),
        decreases n - i,
    {
        assert(orig.skip(i as int).remove(0) =~= orig.skip(i + 1));
        let entry = entries.remove(0);
        let ghost before = ops_view(ops@);
        ops.push(DocumentOp::Edit(FileEdits { file: FileRef::Uri(entry.0), edits: entry.1 }));
        assert(ops_view(ops@) =~= before.push(rewrite_op(m[i as int])));
        assert(rewrite_ops(m).take(i + 1) =~= rewrite_ops(m).take(i as int).push(
            rewrite_op(m[i as int]),
        ));
        i += 1;
    }
    assert(rewrite_ops(m).take(n as int) =~= rewrite_ops(m));
}

/// A second run adds no `moved` block for what the first one wrote: whatever
/// is covered is not added.
pub proof fn covered_moves_are_not_added(
    existing: Seq<MoveV>,
    entries: Seq<(int, Seq<char>)>,
    e: (int, Seq<char>),
)
    requires
        moves_to_add(existing, entries).contains(e),
    ensures
        0 <= e.0 < rename_table().len(),
        entries.contains(e),
        !existing.contains((rename_table()[e.0].from, renamed(rename_table()[e.0]), e.1)),
{
    crate::seqs::lemma_keep_contains(pair_set(entries), not_covered(existing), e);
    crate::order::pair_set_is_ascending_set(entries);
}

// ---------------------------------------------------------------------
// The actions

pub open spec fn rewrite_in(range: Range) -> spec_fn(BlockRewriteV) -> bool {
    |x: BlockRewriteV| intersects(x.edit.range, range)
}

pub open spec fn edit_in(range: Range) -> spec_fn(EditV) -> bool {
    |x: EditV| intersects(x.range, range)
}

/// The label rewrites of a document that fall within a scope.
pub open spec fn doc_block_rewrites(
    docs: Seq<DocumentState>,
    gates: Seq<VersionGate>,
    scope: Scope,
    doc: DocumentState,
) -> Seq<BlockRewriteV> {
    match (doc.body, opt_view(doc.uri.dir)) {
        (Some(body), Some(dir)) => {
            let all = block_rewrites(
                body,
                rope_text(doc.rope),
                supported_specs(docs, gates, dir),
            );
            match scope {
                Scope::Selection { range } => keep(all, rewrite_in(range)),
                _ => all,
            }
        },
        _ => Seq::empty(),
    }
}

/// The reference rewrites of a document that fall within a scope.
pub open spec fn doc_ref_rewrites(
    docs: Seq<DocumentState>,
    gates: Seq<VersionGate>,
    scope: Scope,
    doc: DocumentState,
) -> Seq<EditV> {
    match (doc.body, opt_view(doc.uri.dir)) {
        (Some(body), Some(dir)) => {
            let all = ref_rewrites(body, rope_text(doc.rope), supported_specs(docs, gates, dir));
            match scope {
                Scope::Selection { range } => keep(all, edit_in(range)),
                _ => all,
            }
        },
        _ => Seq::empty(),
    }
}

pub open spec fn rewrite_edits(v: Seq<BlockRewriteV>) -> Seq<EditV> {
    Seq::new(v.len(), |i: int| v[i].edit)
}

/// The edits of a document within a scope: labels, then references.
pub open spec fn doc_rename_edits(
    docs: Seq<DocumentState>,
    gates: Seq<VersionGate>,
    scope: Scope,
    doc: DocumentState,
) -> Seq<EditV> {
    rewrite_edits(doc_block_rewrites(docs, gates, scope, doc)) + doc_ref_rewrites(
        docs,
        gates,
        scope,
        doc,
    )
}

/// The rename of a block for which a `moved` block is safe.
pub open spec fn safe_move(cli_1_8: bool) -> spec_fn(BlockRewriteV) -> Option<(int, Seq<char>)> {
    |x: BlockRewriteV|
        {
            let spec = rename_table()[x.rule];
            if spec.block_kind == "resource"@ && (spec.state_migration == StateMigration::Aliased
                || (spec.state_migration == StateMigration::RequiresTerraform18 && cli_1_8)) {
                Some((x.rule, x.name))
            } else {
                None
            }
        }
}

/// The renames of a document that call for a `moved` block.
pub open spec fn doc_moves(
    docs: Seq<DocumentState>,
    gates: Seq<VersionGate>,
    scope: Scope,
    doc: DocumentState,
) -> Seq<(int, Seq<char>)> {
    match opt_view(doc.uri.dir) {
        Some(dir) => filter_map(
            doc_block_rewrites(docs, gates, scope, doc),
            safe_move(cli_at_least(docs, gates, dir, "1.8.0"@)),
        ),
        None => Seq::empty(),
    }
}

/// The edits of the first `n` documents.
pub open spec fn rename_edits_upto(
    docs: Seq<DocumentState>,
    gates: Seq<VersionGate>,
    scope: Scope,
    within: Seq<DocumentState>,
    n: int,
) -> EditMapV
    decreases n,
{
    if n <= 0 {
        EditMapV::empty()
    } else {
        let m = rename_edits_upto(docs, gates, scope, within, n - 1);
        let e = doc_rename_edits(docs, gates, scope, within[n - 1]);
        if e.len() == 0 {
            m
        } else {
            with_edits(m, within[n - 1].uri.text@, e)
        }
    }
}

/// The `moved` entries of the first `n` documents.
pub open spec fn rename_moves_upto(
    docs: Seq<DocumentState>,
    gates: Seq<VersionGate>,
    scope: Scope,
    within: Seq<DocumentState>,
    n: int,
) -> MoveMapV
    decreases n,
{
    if n <= 0 {
        MoveMapV::empty()
    } else {
        let m = rename_moves_upto(docs, gates, scope, within, n - 1);
        let e = doc_moves(docs, gates, scope, within[n - 1]);
        if e.len() == 0 {
            m
        } else {
            with_moves(m, opt_view(within[n - 1].uri.dir)->0, e)
        }
    }
}

/// How many blocks of the first `n` documents are renamed.
pub open spec fn rename_count_upto(
    docs: Seq<DocumentState>,
    gates: Seq<VersionGate>,
    scope: Scope,
    within: Seq<DocumentState>,
    n: int,
) -> nat
    decreases n,
{
    if n <= 0 {
        0
    } else {
        rename_count_upto(docs, gates, scope, within, n - 1) + doc_block_rewrites(
            docs,
            gates,
            scope,
            within[n - 1],
        ).len()
    }
}

/// The rename action for a scope: none where no block is renamed.
pub open spec fn rename_action(state: StateStore, gates: Seq<VersionGate>, primary: DocUri) -> spec_fn(
    Scope,
) -> Option<CodeActionV> {
    |scope: Scope|
        {
            let docs = state.documents@;
            let within = scope_docs(docs, primary, scope);
            let n = within.len() as int;
            let count = rename_count_upto(docs, gates, scope, within, n);
            if count == 0 {
                None
            } else {
                Some(
                    CodeActionV {
                        title: "Rename "@ + decimal(count) + " deprecated provider type"@
                            + plural_suffix(count) + " in "@ + scope_label(scope),
                        kind: kind_of(scope, "rename-deprecated-provider-types"@),
                        diagnostics: None,
                        edit: WorkspaceEditV::Operations(
                            rename_ops(
                                state,
                                rename_edits_upto(docs, gates, scope, within, n),
                                rename_moves_upto(docs, gates, scope, within, n),
                            ),
                        ),
                        is_preferred: None,
                    },
                )
            }
        }
}

/// The scopes for which bulk actions are offered.
pub open spec fn bulk_scopes(selection: Option<Range>) -> Seq<Scope> {
    match selection {
        Some(range) => seq![
            Scope::Selection { range },
            Scope::File,
            Scope::Module,
            Scope::Workspace,
        ],
        None => seq![Scope::File, Scope::Module, Scope::Workspace],
    }
}

pub fn list_bulk_scopes(selection: Option<Range>) -> (r: Vec<Scope>)
    ensures
        r@ == bulk_scopes(selection),
{
    let mut out: Vec<Scope> = Vec::new();
    if let Some(range) = selection {
        out.push(Scope::Selection { range });
    }
    out.push(Scope::File);
    out.push(Scope::Module);
    out.push(Scope::Workspace);
    assert(out@ =~= bulk_scopes(selection));
    out
}

fn keep_rewrites_in(v: Vec<BlockRewrite>, scope: Scope) -> (r: Vec<BlockRewrite>)
    ensures
        rewrites_view(r@) == match scope {
            Scope::Selection { range } => keep(rewrites_view(v@), rewrite_in(range)),
            _ => rewrites_view(v@),
        },
{
    match scope {
        Scope::Selection { range } => {
            let ghost s = rewrites_view(v@);
            let ghost p = rewrite_in(range);
            let ghost orig = v@;
            let mut rest = v;
            let n: usize = rest.len();
            let mut out: Vec<BlockRewrite> = Vec::new();
            proof {
                lemma_take_full(s);
            }
            assert(rewrites_view(out@) =~= keep(s.take(0), p));
            for i in 0..n
                invariant
                    n == orig.len(),
                    s == rewrites_view(orig),
                    p == rewrite_in(range),
                    rest@ == orig.skip(i as int),
                    rewrites_view(out@) == keep(s.take(i as int), p),
            {
                proof {
                    lemma_keep_step(s, p, i as int);
                    assert(orig.skip(i as int).remove(0) =~= orig.skip(i + 1));
                }
                let ghost before = rewrites_view(out@);
                let x = rest.remove(0);
                if range_intersects(&x.edit.range, &range) {
                    out.push(x);
                    assert(rewrites_view(out@) =~= before.push(s[i as int]));
                }
            }
            out
        },
        _ => v,
    }
}

/// The edits that fall within a scope's selection.
pub open spec fn edits_in_scope(v: Seq<EditV>, scope: Scope) -> Seq<EditV> {
    match scope {
        Scope::Selection { range } => keep(v, edit_in(range)),
        _ => v,
    }
}

/// The edits that fall within a scope's selection.
pub fn keep_edits_in(v: Vec<TextEdit>, scope: Scope) -> (r: Vec<TextEdit>)
    ensures
        edits_view(r@) == edits_in_scope(edits_view(v@), scope),
{
    match scope {
        Scope::Selection { range } => {
            let ghost s = edits_view(v@);
            let ghost p = edit_in(range);
            let ghost orig = v@;
            let mut rest = v;
            let n: usize = rest.len();
            let mut out: Vec<TextEdit> = Vec::new();
            proof {
                lemma_take_full(s);
            }
            assert(edits_view(out@) =~= keep(s.take(0), p));
            for i in 0..n
                invariant
                    n == orig.len(),
                    s == edits_view(orig),
                    p == edit_in(range),
                    rest@ == orig.skip(i as int),
                    edits_view(out@) == keep(s.take(i as int), p),
            {
                proof {
                    lemma_keep_step(s, p, i as int);
                    assert(orig.skip(i as int).remove(0) =~= orig.skip(i + 1));
                }
                let ghost before = edits_view(out@);
                let x = rest.remove(0);
                if range_intersects(&x.range, &range) {
                    out.push(x);
                    assert(edits_view(out@) =~= before.push(s[i as int]));
                }
            }
            out
        },
        _ => v,
    }
}

/// What one document contributes to a rename action.
struct DocRename {
    edits: Vec<TextEdit>,
    moves: Vec<(usize, String)>,
    names: Vec<String>,
}

fn rename_in_doc(state: &StateStore, gates: &Vec<VersionGate>, scope: Scope, doc: &DocumentState) -> (r:
    DocRename)
    ensures
        edits_view(r.edits@) == doc_rename_edits(state.documents@, gates@, scope, *doc),
        pairs_view(r.moves@) == doc_moves(state.documents@, gates@, scope, *doc),
        r.names@.len() == doc_block_rewrites(state.documents@, gates@, scope, *doc).len(),
{
    let mut edits: Vec<TextEdit> = Vec::new();
    let mut moves: Vec<(usize, String)> = Vec::new();
    let mut names: Vec<String> = Vec::new();
    let ghost docs = state.documents@;
    if let Some(body) = &doc.body {
        if let Some(dir) = &doc.uri.dir {
            let table = all_block_renames();
            assert(specs_view(table@).len() == rename_table().len());
            let supported = compute_supported_specs(state, gates, dir.as_str());
            let rewrites = keep_rewrites_in(
                scan_block_rewrites(body, &doc.rope, &supported),
                scope,
            );
            let mut refs = keep_edits_in(scan_ref_rewrites(body, &doc.rope, &supported), scope);
            let cli = module_admits_terraform_at_least(state, gates, dir.as_str(), "1.8.0");
            let ghost s = doc_block_rewrites(docs, gates@, scope, *doc);
            assert(rewrites_view(rewrites@) == s);
            let ghost f = safe_move(cli);
            let ghost orig = rewrites@;
            let mut rest = rewrites;
            let n: usize = rest.len();
            proof {
                lemma_take_full(s);
                lemma_rewrite_rules(docs, gates@, scope, *doc);
            }
            assert(pairs_view(moves@) =~= filter_map(s.take(0), f));
            assert(edits_view(edits@) =~= rewrite_edits(s).take(0));
            for i in 0..n
                invariant
                    specs_view(table@) == rename_table(),
                    specs_view(table@).len() == rename_table().len(),
                    n == orig.len(),
                    s == rewrites_view(orig),
                    forall|j: int|
                        0 <= j < s.len() ==> 0 <= (#[trigger] s[j]).rule < rename_table().len(),
                    f == safe_move(cli),
                    rest@ == orig.skip(i as int),
                    names@.len() == i,
                    pairs_view(moves@) == filter_map(s.take(i as int), f),
                    edits_view(edits@) == rewrite_edits(s).take(i as int),
            {
                proof {
                    lemma_filter_map_step(s, f, i as int);
                    assert(orig.skip(i as int).remove(0) =~= orig.skip(i + 1));
                    assert(s[i as int] == orig[i as int]@);
                }
                let x = rest.remove(0);
                let ghost rule = x.rule as int;
                assert(rename_table()[rule] == specs_view(table@)[rule]);
                let spec = &table[x.rule];
                let safe = match spec.state_migration {
                    StateMigration::Aliased => true,
                    StateMigration::RequiresTerraform18 => cli,
                    StateMigration::Manual => false,
                };
                if spec.is_resource() && safe {
                    let ghost before = pairs_view(moves@);
                    moves.push((x.rule, x.name.clone()));
                    assert(pairs_view(moves@) =~= before.push((x.rule as int, x.name@)));
                }
                names.push(x.name);
                let ghost before = edits_view(edits@);
                edits.push(x.edit);
                assert(edits_view(edits@) =~= before.push(s[i as int].edit));
                assert(rewrite_edits(s).take(i + 1) =~= rewrite_edits(s).take(i as int).push(
                    s[i as int].edit,
                ));
            }
            assert(rewrite_edits(s).take(n as int) =~= rewrite_edits(s));
            let ghost before = edits_view(edits@);
            let ghost tail = edits_view(refs@);
            edits.append(&mut refs);
            assert(edits_view(edits@) =~= before + tail);
        }
    }
    assert(edits_view(edits@) =~= doc_rename_edits(docs, gates@, scope, *doc));
    assert(pairs_view(moves@) =~= doc_moves(docs, gates@, scope, *doc));
    DocRename { edits, moves, names }
}

/// Every rewrite comes from a rule of the table.
proof fn lemma_rewrite_rules(
    docs: Seq<DocumentState>,
    gates: Seq<VersionGate>,
    scope: Scope,
    doc: DocumentState,
)
    ensures
        forall|j: int|
            0 <= j < doc_block_rewrites(docs, gates, scope, doc).len() ==> 0 <= (
            #[trigger] doc_block_rewrites(docs, gates, scope, doc)[j]).rule < rename_table().len(),
{
    if doc.body is Some && opt_view(doc.uri.dir) is Some {
        let t = rope_text(doc.rope);
        let supported = supported_specs(docs, gates, opt_view(doc.uri.dir)->0);
        let all = block_rewrites(doc.body->0, t, supported);
        lemma_filtered_rules(blocks(doc.body->0), t, supported);
        if let Scope::Selection { range } = scope {
            assert forall|j: int|
                0 <= j < doc_block_rewrites(docs, gates, scope, doc).len() implies 0 <= (
            #[trigger] doc_block_rewrites(docs, gates, scope, doc)[j]).rule
                < rename_table().len() by {
                let x = doc_block_rewrites(docs, gates, scope, doc)[j];
                assert(keep(all, rewrite_in(range)).contains(x));
                crate::seqs::lemma_keep_contains(all, rewrite_in(range), x);
            }
        }
    }
}

proof fn lemma_filtered_rules(bs: Seq<Block>, t: Seq<char>, supported: Seq<bool>)
    ensures
        forall|j: int|
            0 <= j < filter_map(bs, block_rewrite(t, supported)).len() ==> 0 <= (
            #[trigger] filter_map(bs, block_rewrite(t, supported))[j]).rule < rename_table().len(),
    decreases bs.len(),
{
    if bs.len() > 0 {
        lemma_filtered_rules(bs.drop_last(), t, supported);
        let b = bs.last();
        if let (Some(ty), Some(name)) = (label_at(b, 0), label_at(b, 1)) {
            lemma_position_in_range(rename_table(), rule_for(b.ident.text@, ty), 0);
        }
        let rest = filter_map(bs.drop_last(), block_rewrite(t, supported));
        let r = filter_map(bs, block_rewrite(t, supported));
        assert forall|j: int| 0 <= j < r.len() implies 0 <= (#[trigger] r[j]).rule
            < rename_table().len() by {
            if j < rest.len() {
                assert(r[j] == rest[j]);
            }
        }
    }
}

proof fn lemma_position_in_range<A>(s: Seq<A>, p: spec_fn(A) -> bool, from: int)
    requires
        0 <= from,
    ensures
        position_from(s, p, from) matches Some(i) ==> from <= i < s.len() && p(s[i]),
    decreases s.len() - from,
{
    if from < s.len() && !p(s[from]) {
        lemma_position_in_range(s, p, from + 1);
    }
}

/// The rename action for one scope.
fn rename_action_for(
    state: &StateStore,
    gates: &Vec<VersionGate>,
    primary_uri: &DocUri,
    scope: Scope,
) -> (r: Option<CodeAction>)
    ensures
        match r {
            Some(a) => rename_action(*state, gates@, *primary_uri)(scope) == Some(a@),
            None => rename_action(*state, gates@, *primary_uri)(scope) is None,
        },
{
    let docs = for_each_doc_in_scope(state, primary_uri, scope);
    let ghost all = state.documents@;
    let ghost within = scope_docs(all, *primary_uri, scope);
    let mut edits = EditMap::new();
    let mut moves = MoveMap { entries: Vec::new() };
    let mut names: Vec<String> = Vec::new();
    assert(moves@ =~= MoveMapV::empty());
    for i in 0..docs.len()
        invariant
            all == state.documents@,
            doc_pointees(docs@) == within,
            edits@ == rename_edits_upto(all, gates@, scope, within, i as int),
            moves@ == rename_moves_upto(all, gates@, scope, within, i as int),
            names@.len() == rename_count_upto(all, gates@, scope, within, i as int),
    {
        assert(within[i as int] == *docs@[i as int]);
        let doc = docs[i];
        let mut one = rename_in_doc(state, gates, scope, doc);
        proof {
            assert(edits_view(one.edits@).len() == one.edits@.len());
            assert(pairs_view(one.moves@).len() == one.moves@.len());
        }
        if one.edits.len() > 0 {
            edits.add(doc.uri.text.as_str(), one.edits);
        }
        if one.moves.len() > 0 {
            if let Some(dir) = &doc.uri.dir {
                moves.add(dir.as_str(), one.moves);
            }
        }
        names.append(&mut one.names);
    }
    let count: usize = names.len();
    if count == 0 {
        return None;
    }
    let mut title = "Rename ".to_owned();
    title.append(u64_text(count as u64).as_str());
    title.append(" deprecated provider type");
    title.append(if count == 1 { "" } else { "s" });
    title.append(" in ");
    title.append(scope.human_label());
    Some(
        CodeAction {
            title,
            kind: scope_kind(scope, "rename-deprecated-provider-types"),
            diagnostics: None,
            edit: build_workspace_edit(state, edits, &moves),
            is_preferred: None,
        },
    )
}

/// Offer the renames for the selection, the file, the module and the
/// workspace, each where it renames a block. A code-action request calls this
/// once.
pub fn emit_block_rename_actions(
    state: &StateStore,
    gates: &Vec<VersionGate>,
    primary_uri: &DocUri,
    selection: Option<Range>,
    actions: &mut Vec<CodeAction>,
)
    ensures
        actions_view(final(actions)@) == actions_view(old(actions)@) + filter_map(
            bulk_scopes(selection),
            rename_action(*state, gates@, *primary_uri),
        ),
{
    let scopes = list_bulk_scopes(selection);
    let ghost s = bulk_scopes(selection);
    let ghost f = rename_action(*state, gates@, *primary_uri);
    let ghost start = actions_view(actions@);
    proof {
        lemma_take_full(s);
    }
    assert(actions_view(actions@) =~= start + filter_map(s.take(0), f));
    for i in 0..scopes.len()
        invariant
            scopes@ == s,
            f == rename_action(*state, gates@, *primary_uri),
            actions_view(actions@) == start + filter_map(s.take(i as int), f),
    {
        proof {
            lemma_filter_map_step(s, f, i as int);
        }
        let ghost before = actions_view(actions@);
        if let Some(a) = rename_action_for(state, gates, primary_uri, scopes[i]) {
            actions.push(a);
            assert(actions_view(actions@) =~= before.push(a@));
        }
        assert(actions_view(actions@) =~= start + filter_map(s.take(i + 1), f));
    }
}

} // verus!
