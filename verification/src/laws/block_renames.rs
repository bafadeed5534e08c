//! What the renames of deprecated types change, and in which modules.

use crate::block_rename::{
    block_rewrite, block_rewrites, cli_at_least, cli_constraint, doc_block_rewrites, doc_moves,
    doc_provider_constraint, doc_ref_rewrites, doc_rename_edits, edit_in, gate_for, is_get_attr,
    module_ops, move_text, moves_to_add, not_covered, provider_constraint, ref_rewrite,
    ref_rewrites, rename_edits_upto, rename_table, renamed, rewrite_edits, rewrite_in, rule_for,
    rule_from, safe_move, supported_specs, BlockRewriteV, GateOutcome, StateMigration, VersionGate,
};
use crate::hcl::{blocks, blocks_named, body_exprs, Block, Body, ExprKind};
use crate::laws::actions::{appended_text_goes_to_its_file, lemma_block_in, writes};
use crate::laws::modules::{has_block, lemma_blocks_named};
use crate::laws::rename::{has_edit, lemma_with_edits};
use crate::moved::{body_traversal, doc_moved_pairs, existing_moves, moved_block, moved_pair, MoveV};
use crate::position::{rope_text, span_range, EditV};
use crate::scope::{intersects, Scope};
use crate::seqs::{
    filter_map, flat_map, lemma_filter_map_contains, lemma_find_map_at, lemma_flat_map_contains,
    lemma_keep_contains, lemma_plus_contains, position_from,
};
use crate::state::{in_dir, DocumentState, StateStore};
use crate::target_file::target_strategy;
use crate::text::{split_once, starts_with};
use vstd::prelude::*;

verus! {

// ---------------------------------------------------------------------
// The rules

/// The two names of a load balancer differ in their prefix alone.
pub open spec fn same_balancer(from: Seq<char>, to: Seq<char>) -> bool {
    exists|rest: Seq<char>| from == #[trigger] ("aws_alb"@ + rest) && to == "aws_lb"@ + rest
}

proof fn lemma_balancer(from: Seq<char>, to: Seq<char>, rest: Seq<char>)
    requires
        from == "aws_alb"@ + rest,
        to == "aws_lb"@ + rest,
    ensures
        same_balancer(from, to),
{
}

/// A rule renames resources of the provider whose version it asks for. The
/// aliases are those of load balancers; the Kubernetes types get a version
/// suffix, and of those no state is moved.
pub proof fn rules_keep_to_their_provider(i: int)
    requires
        0 <= i < rename_table().len(),
    ensures
        ({
            let s = rename_table()[i];
            &&& s.block_kind == "resource"@
            &&& s.state_migration == StateMigration::Aliased ==> s.gate_provider == "aws"@
                && s.gate_threshold == "1.7.0"@ && same_balancer(s.from, renamed(s))
            &&& s.state_migration == StateMigration::Manual ==> s.gate_provider == "kubernetes"@
                && s.gate_threshold == "2.0.0"@ && starts_with(s.from, "kubernetes_"@) && renamed(s)
                == s.from + "_v1"@
            &&& s.state_migration == StateMigration::RequiresTerraform18 ==> s.gate_provider
                == "aws"@ && s.gate_threshold == "4.0.0"@ && s.from == "aws_s3_bucket_object"@
                && renamed(s) == "aws_s3_object"@
        }),
{
    let s = rename_table()[i];
    reveal_strlit("");
    reveal_strlit("kubernetes_");
    reveal_strlit("aws_alb");
    reveal_strlit("aws_lb");
    reveal_strlit("aws_s3_object");
    if i < 6 {
        reveal_strlit("_listener");
        reveal_strlit("_listener_rule");
        reveal_strlit("_target_group");
        reveal_strlit("_target_group_attachment");
        reveal_strlit("aws_alb_listener");
        reveal_strlit("aws_lb_listener");
        reveal_strlit("aws_alb_listener_rule");
        reveal_strlit("aws_lb_listener_rule");
        reveal_strlit("aws_alb_target_group");
        reveal_strlit("aws_lb_target_group");
        reveal_strlit("aws_alb_target_group_attachment");
        reveal_strlit("aws_lb_target_group_attachment");
        if i == 0 {
            assert("aws_alb"@ =~= "aws_alb"@ + ""@);
            assert("aws_lb"@ =~= "aws_lb"@ + ""@);
            lemma_balancer("aws_alb"@, "aws_lb"@, ""@);
        } else if i == 1 {
            assert("aws_alb_listener"@ =~= "aws_alb"@ + "_listener"@);
            assert("aws_lb_listener"@ =~= "aws_lb"@ + "_listener"@);
            lemma_balancer("aws_alb_listener"@, "aws_lb_listener"@, "_listener"@);
        } else if i == 2 {
            assert("aws_alb_listener_rule"@ =~= "aws_alb"@ + "_listener_rule"@);
            assert("aws_lb_listener_rule"@ =~= "aws_lb"@ + "_listener_rule"@);
            lemma_balancer("aws_alb_listener_rule"@, "aws_lb_listener_rule"@, "_listener_rule"@);
        } else if i == 3 {
            assert("aws_alb_target_group"@ =~= "aws_alb"@ + "_target_group"@);
            assert("aws_lb_target_group"@ =~= "aws_lb"@ + "_target_group"@);
            lemma_balancer("aws_alb_target_group"@, "aws_lb_target_group"@, "_target_group"@);
        } else if i == 4 {
            assert("aws_alb_target_group_attachment"@ =~= "aws_alb"@
                + "_target_group_attachment"@);
            assert("aws_lb_target_group_attachment"@ =~= "aws_lb"@
                + "_target_group_attachment"@);
            lemma_balancer(
                "aws_alb_target_group_attachment"@,
                "aws_lb_target_group_attachment"@,
                "_target_group_attachment"@,
            );
        }
    } else {
        assert(s.to =~= ""@);
        lemma_kubernetes(i);
    }
}

proof fn lemma_kubernetes(i: int)
    requires
        6 <= i < rename_table().len(),
    ensures
        starts_with(rename_table()[i].from, "kubernetes_"@),
{
    reveal_strlit("kubernetes_");
    let f = rename_table()[i].from;
    let p = "kubernetes_"@;
    reveal_strlit("kubernetes_pod");
    reveal_strlit("kubernetes_deployment");
    reveal_strlit("kubernetes_service");
    reveal_strlit("kubernetes_namespace");
    reveal_strlit("kubernetes_config_map");
    reveal_strlit("kubernetes_secret");
    reveal_strlit("kubernetes_role");
    reveal_strlit("kubernetes_role_binding");
    reveal_strlit("kubernetes_cluster_role");
    reveal_strlit("kubernetes_cluster_role_binding");
    reveal_strlit("kubernetes_persistent_volume");
    reveal_strlit("kubernetes_persistent_volume_claim");
    reveal_strlit("kubernetes_service_account");
    reveal_strlit("kubernetes_stateful_set");
    reveal_strlit("kubernetes_daemonset");
    reveal_strlit("kubernetes_job");
    reveal_strlit("kubernetes_cron_job");
    reveal_strlit("kubernetes_network_policy");
    reveal_strlit("kubernetes_ingress");
    reveal_strlit("kubernetes_horizontal_pod_autoscaler");
    assert(f.len() >= p.len());
    assert(f.subrange(0, p.len() as int) =~= p);
}

// ---------------------------------------------------------------------
// Where a rule applies

/// Without a constraint on its provider a rule applies in every module.
pub proof fn rules_apply_without_a_constraint(
    docs: Seq<DocumentState>,
    gates: Seq<VersionGate>,
    dir: Seq<char>,
    i: int,
)
    requires
        0 <= i < rename_table().len(),
        forall|k: int|
            0 <= k < docs.len() ==> doc_provider_constraint(
                dir,
                rename_table()[i].gate_provider,
            )(#[trigger] docs[k]) is None,
    ensures
        supported_specs(docs, gates, dir)[i],
{
    let f = doc_provider_constraint(dir, rename_table()[i].gate_provider);
    let parts = filter_map(docs, f);
    if parts.len() > 0 {
        lemma_filter_map_contains(docs, f, parts[0]);
        assert(parts.contains(parts[0]));
    }
}

/// With a constraint a rule applies exactly where no version below its threshold
/// is admitted, or the constraint says nothing.
pub proof fn rules_apply_from_their_threshold_on(
    docs: Seq<DocumentState>,
    gates: Seq<VersionGate>,
    dir: Seq<char>,
    i: int,
    c: Seq<char>,
    g: int,
)
    requires
        0 <= i < rename_table().len(),
        provider_constraint(docs, dir, rename_table()[i].gate_provider) == Some(c),
        0 <= g < gates.len(),
        gates[g].constraint@ == c,
        gates[g].floor@ == rename_table()[i].gate_threshold,
        forall|j: int|
            0 <= j < g ==> !((#[trigger] gates[j]).constraint@ == c && gates[j].floor@
                == rename_table()[i].gate_threshold),
    ensures
        supported_specs(docs, gates, dir)[i] <==> gates[g].outcome == GateOutcome::Empty
            || gates[g].outcome == (GateOutcome::Minimum { at_least: true }),
{
    lemma_find_map_at(gates, gate_for(c, rename_table()[i].gate_threshold), g);
}

/// A module without `required_version` promises no version of the CLI; one with
/// it does where its lowest version reaches the floor.
pub proof fn cli_versions_are_promised(
    docs: Seq<DocumentState>,
    gates: Seq<VersionGate>,
    dir: Seq<char>,
    floor: Seq<char>,
    g: int,
)
    requires
        0 <= g < gates.len(),
        gates[g].floor@ == floor,
        forall|j: int|
            0 <= j < g ==> !((#[trigger] gates[j]).constraint@ == gates[g].constraint@
                && gates[j].floor@ == floor),
    ensures
        cli_constraint(docs, dir) is None ==> !cli_at_least(docs, gates, dir, floor),
        cli_constraint(docs, dir) == Some(gates[g].constraint@) ==> (cli_at_least(
            docs,
            gates,
            dir,
            floor,
        ) <==> gates[g].outcome == (GateOutcome::Minimum { at_least: true })),
{
    lemma_find_map_at(gates, gate_for(gates[g].constraint@, floor), g);
}

// ---------------------------------------------------------------------
// The edits

pub proof fn lemma_position_at<A>(s: Seq<A>, p: spec_fn(A) -> bool, from: int)
    requires
        0 <= from,
    ensures
        match position_from(s, p, from) {
            Some(i) => from <= i < s.len() && p(s[i]) && (forall|j: int|
                from <= j < i ==> !p(#[trigger] s[j])),
            None => forall|i: int| from <= i < s.len() ==> !p(#[trigger] s[i]),
        },
    decreases s.len() - from,
{
    if from < s.len() && !p(s[from]) {
        lemma_position_at(s, p, from + 1);
    }
}

/// A block gets the new type in place of its first label, and keeps its name.
pub open spec fn renames_block(
    t: Seq<char>,
    supported: Seq<bool>,
    b: Block,
    x: BlockRewriteV,
) -> bool {
    &&& b.labels@.len() > 1
    &&& 0 <= x.rule < rename_table().len()
    &&& rename_table()[x.rule].block_kind == b.ident.text@
    &&& rename_table()[x.rule].from == b.labels@[0].text@
    &&& supported[x.rule]
    &&& x.name == b.labels@[1].text@
    &&& b.labels@[0].span is Some
    &&& span_range(t, b.labels@[0].span->0) == Some(x.edit.range)
    &&& x.edit.new_text == "\""@ + renamed(rename_table()[x.rule]) + "\""@
}

/// Every rewrite of a label is that of a block with the old type.
pub proof fn renamed_blocks_have_the_old_type(
    body: Body,
    t: Seq<char>,
    supported: Seq<bool>,
    x: BlockRewriteV,
)
    requires
        block_rewrites(body, t, supported).contains(x),
    ensures
        exists|b: Block| #[trigger] has_block(body, b) && renames_block(t, supported, b, x),
{
    let f = block_rewrite(t, supported);
    let s = blocks(body);
    lemma_filter_map_contains(s, f, x);
    let i = choose|i: int| 0 <= i < s.len() && f(#[trigger] s[i]) == Some(x);
    let b = s[i];
    assert(s.contains(b));
    lemma_block_in(body, b);
    lemma_position_at(rename_table(), rule_for(b.ident.text@, b.labels@[0].text@), 0);
    assert(has_block(body, b) && renames_block(t, supported, b, x));
}

/// Every block with an old type and a name is renamed where its rule applies.
pub proof fn blocks_of_the_old_type_are_renamed(
    body: Body,
    t: Seq<char>,
    supported: Seq<bool>,
    b: Block,
    i: int,
)
    requires
        has_block(body, b),
        b.labels@.len() > 1,
        b.labels@[0].span is Some,
        span_range(t, b.labels@[0].span->0) is Some,
        0 <= i < rename_table().len(),
        rename_table()[i].block_kind == b.ident.text@,
        rename_table()[i].from == b.labels@[0].text@,
        forall|j: int|
            0 <= j < i ==> !((#[trigger] rename_table()[j]).block_kind == b.ident.text@
                && rename_table()[j].from == b.labels@[0].text@),
        supported[i],
    ensures
        block_rewrites(body, t, supported).contains(
            BlockRewriteV {
                rule: i,
                name: b.labels@[1].text@,
                edit: EditV {
                    range: span_range(t, b.labels@[0].span->0)->0,
                    new_text: "\""@ + renamed(rename_table()[i]) + "\""@,
                },
            },
        ),
{
    let f = block_rewrite(t, supported);
    let x = BlockRewriteV {
        rule: i,
        name: b.labels@[1].text@,
        edit: EditV {
            range: span_range(t, b.labels@[0].span->0)->0,
            new_text: "\""@ + renamed(rename_table()[i]) + "\""@,
        },
    };
    let p = rule_for(b.ident.text@, b.labels@[0].text@);
    lemma_position_at(rename_table(), p, 0);
    assert(p(rename_table()[i]));
    let k = position_from(rename_table(), p, 0)->0;
    if k < i {
        assert(p(rename_table()[k]));
    }
    lemma_block_in(body, b);
    let s = blocks(body);
    let n = choose|n: int| 0 <= n < s.len() && s[n] == b;
    lemma_filter_map_contains(s, f, x);
    assert(f(s[n]) == Some(x));
}

/// Every rewrite of a reference puts the new type for the old one at its head.
pub proof fn renamed_references_have_the_old_type(
    body: Body,
    t: Seq<char>,
    supported: Seq<bool>,
    e: EditV,
)
    requires
        ref_rewrites(body, t, supported).contains(e),
    ensures
        exists|n: int| #[trigger] renames_reference(body, t, supported, e, n),
{
    let f = ref_rewrite(t, supported);
    let s = body_exprs(body);
    lemma_filter_map_contains(s, f, e);
    let n = choose|n: int| 0 <= n < s.len() && f(#[trigger] s[n]) == Some(e);
    match s[n].kind {
        ExprKind::Traversal(tr) => match tr.expr.kind {
            ExprKind::Variable(head) => {
                lemma_position_at(rename_table(), rule_from(head@), 0);
                let i = position_from(rename_table(), rule_from(head@), 0)->0;
                assert(renamed_by(head@, e.new_text, supported, i));
            },
            _ => {},
        },
        _ => {},
    }
    assert(renames_reference(body, t, supported, e, n));
}

/// A rule that applies gives the old type the new name.
pub open spec fn renamed_by(from: Seq<char>, to: Seq<char>, supported: Seq<bool>, i: int) -> bool {
    0 <= i < rename_table().len() && supported[i] && rename_table()[i].from == from && renamed(
        rename_table()[i],
    ) == to
}

pub open spec fn renames_reference(
    body: Body,
    t: Seq<char>,
    supported: Seq<bool>,
    e: EditV,
    n: int,
) -> bool {
    &&& 0 <= n < body_exprs(body).len()
    &&& match body_exprs(body)[n].kind {
        ExprKind::Traversal(tr) => match tr.expr.kind {
            ExprKind::Variable(head) => {
                &&& exists|k: int|
                    0 <= k < tr.operators@.len() && (#[trigger] tr.operators@[k]).kind is GetAttr
                &&& tr.expr.span is Some && span_range(t, tr.expr.span->0) == Some(e.range)
                &&& exists|i: int| #[trigger] renamed_by(head@, e.new_text, supported, i)
            },
            _ => false,
        },
        _ => false,
    }
}

/// Every reference to an old type is renamed where its rule applies.
pub proof fn references_to_the_old_type_are_renamed(
    body: Body,
    t: Seq<char>,
    supported: Seq<bool>,
    n: int,
    i: int,
    k: int,
)
    requires
        0 <= n < body_exprs(body).len(),
        body_exprs(body)[n].kind matches ExprKind::Traversal(tr) && (
        tr.expr.kind matches ExprKind::Variable(head) && head@ == rename_table()[i].from)
            && tr.expr.span is Some && span_range(t, tr.expr.span->0) is Some && 0 <= k
            < tr.operators@.len() && tr.operators@[k].kind is GetAttr,
        0 <= i < rename_table().len(),
        forall|j: int| 0 <= j < i ==> (#[trigger] rename_table()[j]).from != rename_table()[i].from,
        supported[i],
    ensures
        body_exprs(body)[n].kind matches ExprKind::Traversal(tr) && ref_rewrites(
            body,
            t,
            supported,
        ).contains(
            EditV {
                range: span_range(t, tr.expr.span->0)->0,
                new_text: renamed(rename_table()[i]),
            },
        ),
{
    let f = ref_rewrite(t, supported);
    let s = body_exprs(body);
    match s[n].kind {
        ExprKind::Traversal(tr) => {
            let p = rule_from(rename_table()[i].from);
            lemma_position_at(rename_table(), p, 0);
            assert(p(rename_table()[i]));
            let m = position_from(rename_table(), p, 0)->0;
            if m < i {
                assert(p(rename_table()[m]));
            }
            assert(is_get_attr(tr.operators@[k]));
            let e = EditV {
                range: span_range(t, tr.expr.span->0)->0,
                new_text: renamed(rename_table()[i]),
            };
            lemma_filter_map_contains(s, f, e);
            assert(f(s[n]) == Some(e));
        },
        _ => {},
    }
}

/// Labels and references of a document are rewritten together, by the rules of
/// its own module; in a selection those that touch it.
pub proof fn documents_are_renamed_by_their_modules_rules(
    docs: Seq<DocumentState>,
    gates: Seq<VersionGate>,
    scope: Scope,
    doc: DocumentState,
    e: EditV,
)
    requires
        doc.body is Some,
        doc.uri.dir is Some,
    ensures
        doc_rename_edits(docs, gates, scope, doc).contains(e) <==> {
            let supported = supported_specs(docs, gates, doc.uri.dir->0@);
            let t = rope_text(doc.rope);
            &&& match scope {
                Scope::Selection { range } => intersects(e.range, range),
                _ => true,
            }
            &&& {
                ||| exists|x: BlockRewriteV| #[trigger]
                    block_rewrites(doc.body->0, t, supported).contains(x) && x.edit == e
                ||| ref_rewrites(doc.body->0, t, supported).contains(e)
            }
        },
{
    let supported = supported_specs(docs, gates, doc.uri.dir->0@);
    let t = rope_text(doc.rope);
    let all = block_rewrites(doc.body->0, t, supported);
    let refs = ref_rewrites(doc.body->0, t, supported);
    let own = doc_block_rewrites(docs, gates, scope, doc);
    let edits = rewrite_edits(own);
    lemma_plus_contains(edits, doc_ref_rewrites(docs, gates, scope, doc), e);
    if let Scope::Selection { range } = scope {
        lemma_keep_contains(refs, edit_in(range), e);
    }
    if edits.contains(e) {
        let j = choose|j: int| 0 <= j < edits.len() && edits[j] == e;
        assert(own.contains(own[j]));
        if let Scope::Selection { range } = scope {
            lemma_keep_contains(all, rewrite_in(range), own[j]);
        }
        assert(all.contains(own[j]) && own[j].edit == e);
    }
    if (match scope {
        Scope::Selection { range } => intersects(e.range, range),
        _ => true,
    }) && exists|x: BlockRewriteV| #[trigger] all.contains(x) && x.edit == e {
        let x = choose|x: BlockRewriteV| #[trigger] all.contains(x) && x.edit == e;
        if let Scope::Selection { range } = scope {
            lemma_keep_contains(all, rewrite_in(range), x);
        }
        assert(own.contains(x));
        let j = choose|j: int| 0 <= j < own.len() && own[j] == x;
        assert(edits[j] == e);
    }
}

/// The edits of each document of the scope are in the action's edit map.
pub proof fn every_document_of_the_scope_is_renamed(
    docs: Seq<DocumentState>,
    gates: Seq<VersionGate>,
    scope: Scope,
    within: Seq<DocumentState>,
    n: int,
    i: int,
    e: EditV,
)
    requires
        0 <= i < n <= within.len(),
        doc_rename_edits(docs, gates, scope, within[i]).contains(e),
    ensures
        has_edit(
            rename_edits_upto(docs, gates, scope, within, n),
            within[i].uri.text@,
            e.range,
            e.new_text,
        ),
    decreases n,
{
    let m = rename_edits_upto(docs, gates, scope, within, n - 1);
    let own = doc_rename_edits(docs, gates, scope, within[n - 1]);
    lemma_with_edits(m, within[n - 1].uri.text@, own, within[i].uri.text@, e.range, e.new_text);
    if i < n - 1 {
        every_document_of_the_scope_is_renamed(docs, gates, scope, within, n - 1, i, e);
    } else {
        let j = choose|j: int| 0 <= j < own.len() && own[j] == e;
        assert(own[j].range == e.range && own[j].new_text == e.new_text);
    }
}

// ---------------------------------------------------------------------
// The moves

/// State is moved for a renamed resource where both types are one resource, and,
/// where the CLI moves state across types, for those that need it; never where
/// the user is to move it.
pub proof fn moves_are_safe(
    docs: Seq<DocumentState>,
    gates: Seq<VersionGate>,
    scope: Scope,
    doc: DocumentState,
    rule: int,
    name: Seq<char>,
)
    requires
        doc.uri.dir is Some,
    ensures
        doc_moves(docs, gates, scope, doc).contains((rule, name)) <==> exists|x: BlockRewriteV|
            #[trigger]
            doc_block_rewrites(docs, gates, scope, doc).contains(x) && x.rule == rule && x.name
                == name && rename_table()[rule].block_kind == "resource"@
                && rename_table()[rule].state_migration != StateMigration::Manual && (
            rename_table()[rule].state_migration == StateMigration::RequiresTerraform18
                ==> cli_at_least(docs, gates, doc.uri.dir->0@, "1.8.0"@)),
{
    let cli = cli_at_least(docs, gates, doc.uri.dir->0@, "1.8.0"@);
    let s = doc_block_rewrites(docs, gates, scope, doc);
    let f = safe_move(cli);
    lemma_filter_map_contains(s, f, (rule, name));
    if doc_moves(docs, gates, scope, doc).contains((rule, name)) {
        let i = choose|i: int| 0 <= i < s.len() && f(#[trigger] s[i]) == Some((rule, name));
        assert(s.contains(s[i]));
        assert(rename_table()[rule].state_migration != StateMigration::Manual);
    }
    if exists|x: BlockRewriteV| #[trigger]
        s.contains(x) && x.rule == rule && x.name == name && rename_table()[rule].block_kind
            == "resource"@ && rename_table()[rule].state_migration != StateMigration::Manual && (
        rename_table()[rule].state_migration == StateMigration::RequiresTerraform18 ==> cli) {
        let x = choose|x: BlockRewriteV| #[trigger]
            s.contains(x) && x.rule == rule && x.name == name && rename_table()[rule].block_kind
                == "resource"@ && rename_table()[rule].state_migration != StateMigration::Manual
                && (rename_table()[rule].state_migration == StateMigration::RequiresTerraform18
                ==> cli);
        let i = choose|i: int| 0 <= i < s.len() && s[i] == x;
        match rename_table()[rule].state_migration {
            StateMigration::Aliased => {},
            StateMigration::RequiresTerraform18 => {},
            StateMigration::Manual => {},
        }
        assert(f(s[i]) == Some((rule, name)));
    }
}

/// A module gets a `moved` block for exactly the renames that it does not cover.
pub proof fn uncovered_renames_are_moved(
    existing: Seq<MoveV>,
    entries: Seq<(int, Seq<char>)>,
    rule: int,
    name: Seq<char>,
)
    ensures
        moves_to_add(existing, entries).contains((rule, name)) <==> entries.contains((rule, name))
            && 0 <= rule < rename_table().len() && !existing.contains(
            (rename_table()[rule].from, renamed(rename_table()[rule]), name),
        ),
        move_text()((rule, name)) == moved_block(
            rename_table()[rule].from,
            renamed(rename_table()[rule]),
            name,
        ),
{
    lemma_keep_contains(
        crate::order::pair_set(entries),
        not_covered(existing),
        (rule, name),
    );
    crate::order::pair_set_is_ascending_set(entries);
}

/// A `moved` block of a document of the module counts as covered: from the type
/// before the dot of `from` to that of `to`, under the name behind the dot of
/// `from`.
pub proof fn moved_blocks_are_covered(
    docs: Seq<DocumentState>,
    dir: Seq<char>,
    k: int,
    b: Block,
    from: Seq<char>,
    to: Seq<char>,
    name: Seq<char>,
    rest: Seq<char>,
)
    requires
        0 <= k < docs.len(),
        docs[k].uri.dir is Some,
        docs[k].uri.dir->0@ == dir,
        docs[k].body is Some,
        has_block(docs[k].body->0, b),
        b.ident.text@ == "moved"@,
        body_traversal(b.body, "from"@) is Some,
        split_once(body_traversal(b.body, "from"@)->0, '.') == Some((from, name)),
        body_traversal(b.body, "to"@) is Some,
        split_once(body_traversal(b.body, "to"@)->0, '.') == Some((to, rest)),
    ensures
        existing_moves(docs, dir).contains((from, to, name)),
{
    let body = docs[k].body->0;
    let s = blocks_named(body, "moved"@);
    let m = (from, to, name);
    lemma_blocks_named(body, "moved"@, b);
    let i = choose|i: int| 0 <= i < s.len() && s[i] == b;
    lemma_filter_map_contains(s, moved_pair(), m);
    assert(moved_pair()(s[i]) == Some(m));
    let f = doc_moved_pairs(dir);
    lemma_flat_map_contains(docs, f, m);
    assert(in_dir(docs[k], dir));
    assert(f(docs[k]).contains(m));
}

/// The `moved` blocks of a module go to its own `moved.tf`.
pub proof fn moves_are_written_to_their_module(
    state: StateStore,
    dir: Seq<char>,
    entries: Seq<(int, Seq<char>)>,
)
    ensures
        ({
            let add = moves_to_add(existing_moves(state.documents@, dir), entries);
            if add.len() == 0 {
                module_ops(state)((dir, entries)).len() == 0
            } else {
                writes(
                    module_ops(state)((dir, entries)),
                    dir,
                    "moved.tf"@,
                    flat_map(add, move_text()),
                )
            }
        }),
{
    let add = moves_to_add(existing_moves(state.documents@, dir), entries);
    appended_text_goes_to_its_file(
        target_strategy(state, dir, "moved.tf"@),
        dir,
        "moved.tf"@,
        flat_map(add, move_text()),
    );
}

} // verus!
