//! Which providers a module declares, and what is said of their functions.

use crate::actions::DiagnosticSeverity;
use crate::commands::{command_plan, report_of, CliOutcome, PlanV, ReportV};
use crate::hcl::{blocks_named, key_text, Attribute, Block, Body, ExprKind, ObjectItem};
use crate::idents::{after_blanks, ident_char, ident_end};
use crate::laws::common::{is_doc, lemma_doc};
use crate::laws::hover::{is_named, lacks, lemma_lacks, lemma_named};
use crate::laws::modules::{has_attribute, has_block, lemma_attributes, lemma_blocks_named};
use crate::laws::rename::holds;
use crate::position::{char_offset, offset_position};
use crate::provider_fn::{
    call_at, call_diagnostic, calls_from, is_function_of, is_the_function, provider_of_local,
    sibling_provider, FnCall,
};
use crate::providers::{
    entry_for, entry_provider, entry_version, item_literal, local_provider, object_literal,
    provider_attributes, provider_entries, provider_entries_of, source_name,
};
use crate::schema::Json;
use crate::seqs::{find_map, lemma_find_map_at, lemma_find_map_first, lemma_flat_map_contains};
use crate::state::{DocUri, StateStore};
use crate::text::{find_from, occurs_at, opt_view};
use vstd::prelude::*;

verus! {

// ---------------------------------------------------------------------
// Entries of `required_providers`

/// An attribute of a `required_providers` block of a `terraform` block.
pub open spec fn declares_provider(body: Body, b: Block, p: Block, a: Attribute) -> bool {
    &&& has_block(body, b)
    &&& b.ident.text@ == "terraform"@
    &&& has_block(b.body, p)
    &&& p.ident.text@ == "required_providers"@
    &&& has_attribute(p.body, a)
}

/// The entries are exactly the attributes of those blocks.
pub proof fn entries_stand_in_required_providers(body: Body, a: Attribute)
    ensures
        provider_entries(body).contains(a) <==> exists|b: Block, p: Block| #[trigger]
            declares_provider(body, b, p, a),
{
    let s = blocks_named(body, "terraform"@);
    let f = provider_entries_of();
    lemma_flat_map_contains(s, f, a);
    if provider_entries(body).contains(a) {
        let i = choose|i: int| 0 <= i < s.len() && (#[trigger] f(s[i])).contains(a);
        let b = s[i];
        assert(s.contains(b));
        lemma_blocks_named(body, "terraform"@, b);
        let ps = blocks_named(b.body, "required_providers"@);
        let g = provider_attributes();
        lemma_flat_map_contains(ps, g, a);
        let j = choose|j: int| 0 <= j < ps.len() && (#[trigger] g(ps[j])).contains(a);
        let p = ps[j];
        assert(ps.contains(p));
        lemma_blocks_named(b.body, "required_providers"@, p);
        lemma_attributes(p.body, a);
        assert(declares_provider(body, b, p, a));
    }
    if exists|b: Block, p: Block| #[trigger] declares_provider(body, b, p, a) {
        let (b, p) = choose|b: Block, p: Block| #[trigger] declares_provider(body, b, p, a);
        lemma_blocks_named(body, "terraform"@, b);
        lemma_blocks_named(b.body, "required_providers"@, p);
        lemma_attributes(p.body, a);
        let ps = blocks_named(b.body, "required_providers"@);
        let g = provider_attributes();
        let j = choose|j: int| 0 <= j < ps.len() && ps[j] == p;
        lemma_flat_map_contains(ps, g, a);
        assert(g(ps[j]).contains(a));
        let i = choose|i: int| 0 <= i < s.len() && s[i] == b;
        assert(f(s[i]).contains(a));
    }
}

/// The name of a provider is what stands behind the last slash of its source.
pub proof fn sources_end_with_the_name(front: Seq<char>, name: Seq<char>)
    requires
        !name.contains('/'),
        name.len() > 0,
    ensures
        source_name(front + seq!['/'] + name) == Some(name),
        source_name(name) == Some(name),
        source_name(front + seq!['/']) is None,
{
    lemma_last_piece(front + seq!['/'] + name, 0, name);
    lemma_last_piece(name, 0, name);
    lemma_last_piece(front + seq!['/'], 0, Seq::empty());
}

proof fn lemma_last_piece(s: Seq<char>, from: int, name: Seq<char>)
    requires
        0 <= from <= s.len() - name.len(),
        !name.contains('/'),
        s.skip(s.len() - name.len()) =~= name,
        from < s.len() - name.len() ==> s[s.len() - name.len() - 1] == '/',
    ensures
        crate::text::split_from(s, '/', from).len() > 0,
        crate::text::split_from(s, '/', from).last() == name,
    decreases s.len() - from,
{
    let k = s.len() - name.len();
    crate::laws::basics::characters_are_found(s, '/', from);
    match crate::text::find_char(s, '/', from) {
        Some(i) => {
            if i >= k {
                assert(s.skip(k)[i - k] == '/');
                assert(name.contains('/'));
            }
            lemma_last_piece(s, i + 1, name);
        },
        None => {
            if from < k {
                assert(s[k - 1] != '/');
            }
            assert(s.subrange(from, s.len() as int) =~= name);
        },
    }
}

/// The first item of an object with a key and a plain string.
pub open spec fn first_string(items: Seq<ObjectItem>, key: Seq<char>, value: Seq<char>, i: int) -> bool {
    &&& 0 <= i < items.len()
    &&& key_text(items[i].key) == Some(key)
    &&& items[i].value.kind matches ExprKind::Str(s) && s@ == value
    &&& forall|j: int| 0 <= j < i ==> key_text((#[trigger] items[j]).key) != Some(key)
}

/// An entry stands for the provider that its source names; one without a source
/// for the provider of its own name. Its constraint is its `version`, or in the
/// short form its string.
pub proof fn entries_say_provider_and_version(a: Attribute, source: Seq<char>, version: Seq<char>, i: int, j: int)
    ensures
        (a.value.kind matches ExprKind::Object(items) && first_string(
            items@,
            "source"@,
            source,
            i,
        )) ==> entry_provider(a) == match source_name(source) {
            Some(n) => n,
            None => a.key.text@,
        },
        (a.value.kind matches ExprKind::Object(items) && first_string(
            items@,
            "version"@,
            version,
            j,
        )) ==> entry_version(a) == Some(version),
        (a.value.kind matches ExprKind::Object(items) && forall|k: int|
            0 <= k < items@.len() ==> key_text((#[trigger] items@[k]).key) != Some("source"@))
            ==> entry_provider(a) == a.key.text@,
        (a.value.kind matches ExprKind::Str(s) && s@ == version) ==> entry_version(a) == Some(
            version,
        ) && entry_provider(a) == a.key.text@,
{
    if let ExprKind::Object(items) = a.value.kind {
        if first_string(items@, "source"@, source, i) {
            lemma_find_map_at(items@, item_literal("source"@), i);
        }
        if first_string(items@, "version"@, version, j) {
            lemma_find_map_at(items@, item_literal("version"@), j);
        }
        if object_literal(items@, "source"@) is Some {
            let k = lemma_find_map_first(items@, item_literal("source"@));
            assert(key_text(items@[k].key) == Some("source"@));
        }
    }
}

/// A local name stands for what its first entry says, and for nothing without
/// an entry.
pub proof fn local_names_stand_for_their_entry(body: Body, local: Seq<char>, i: int)
    ensures
        0 <= i < provider_entries(body).len() && provider_entries(body)[i].key.text@ == local && (
        forall|j: int| 0 <= j < i ==> (#[trigger] provider_entries(body)[j]).key.text@ != local)
            ==> local_provider(body, local) == Some(entry_provider(provider_entries(body)[i])),
        (forall|j: int|
            0 <= j < provider_entries(body).len() ==> (
            #[trigger] provider_entries(body)[j]).key.text@ != local) ==> local_provider(
            body,
            local,
        ) is None,
{
    let s = provider_entries(body);
    let f = entry_for(local);
    if 0 <= i < s.len() && s[i].key.text@ == local && (forall|j: int|
        0 <= j < i ==> (#[trigger] s[j]).key.text@ != local) {
        lemma_find_map_at(s, f, i);
    }
    if local_provider(body, local) is Some {
        let k = lemma_find_map_first(s, f);
        assert(s[k].key.text@ == local);
    }
}

// ---------------------------------------------------------------------
// Calls of functions

proof fn lemma_word(t: Seq<char>, i: int, j: int)
    requires
        0 <= i <= j <= t.len(),
        forall|k: int| i <= k < j ==> ident_char(#[trigger] t[k]),
        j < t.len() ==> !ident_char(t[j]),
    ensures
        ident_end(t, i) == j,
    decreases j - i,
{
    if i < j {
        assert(ident_char(t[i]));
        lemma_word(t, i + 1, j);
    }
}

proof fn lemma_word_chars(t: Seq<char>, i: int, k: int)
    requires
        0 <= i <= k < ident_end(t, i),
    ensures
        ident_char(t[k]),
    decreases t.len() - i,
{
    if i < t.len() && ident_char(t[i]) && k > i {
        lemma_word_chars(t, i + 1, k);
    }
}

proof fn lemma_spaces(t: Seq<char>, i: int, j: int)
    requires
        0 <= i <= j < t.len(),
        forall|k: int| i <= k < j ==> #[trigger] t[k] == ' ' || t[k] == '\t',
        t[j] != ' ',
        t[j] != '\t',
    ensures
        after_blanks(t, i) == j,
    decreases j - i,
{
    if i < j {
        assert(t[i] == ' ' || t[i] == '\t');
        lemma_spaces(t, i + 1, j);
    }
}

/// A text has a call at `k`: `provider::LOCAL::NAME`, maybe blanks, and an
/// opening parenthesis, not as the end of a longer word.
pub open spec fn is_call(t: Seq<char>, k: int, a: int, b: int, c: int, d: int, p: int) -> bool {
    &&& 0 <= k && a == k + 10 && a < b && c == b + 2 && c < d <= p < t.len()
    &&& t.subrange(k, a) == "provider::"@
    &&& k > 0 ==> !ident_char(t[k - 1])
    &&& forall|i: int| a <= i < b ==> ident_char(#[trigger] t[i])
    &&& t[b] == ':' && t[b + 1] == ':'
    &&& forall|i: int| c <= i < d ==> ident_char(#[trigger] t[i])
    &&& forall|i: int| d <= i < p ==> #[trigger] t[i] == ' ' || t[i] == '\t'
    &&& t[p] == '('
}

/// The first `provider::` of a text, where it begins a call, is found with the
/// parts of the call.
pub proof fn calls_are_found(t: Seq<char>, k: int, a: int, b: int, c: int, d: int, p: int)
    requires
        is_call(t, k, a, b, c, d, p),
        t.len() <= usize::MAX,
        forall|j: int| 0 <= j < k ==> !occurs_at(t, "provider::"@, j),
    ensures
        calls_from(t, 0).len() > 0,
        ({
            let x = calls_from(t, 0)[0];
            x.start == k && x.local_start == a && x.local_end == b && x.fn_start == c && x.fn_end
                == d
        }),
{
    reveal_strlit("provider::");
    lemma_first(t, "provider::"@, 0, k);
    lemma_call(t, k, a, b, c, d, p);
}

proof fn lemma_call(t: Seq<char>, k: int, a: int, b: int, c: int, d: int, p: int)
    requires
        is_call(t, k, a, b, c, d, p),
        t.len() <= usize::MAX,
    ensures
        call_at(t, k).0 == Some(
            FnCall {
                start: k as usize,
                local_start: a as usize,
                local_end: b as usize,
                fn_start: c as usize,
                fn_end: d as usize,
            },
        ),
        call_at(t, k).1 == d,
{
    assert(!ident_char(':'));
    assert(!ident_char('('));
    assert(!ident_char(' '));
    assert(!ident_char('\t'));
    lemma_word(t, a, b);
    if d < p {
        assert(t[d] == ' ' || t[d] == '\t');
    }
    lemma_word(t, c, d);
    lemma_spaces(t, d, p);
}

proof fn lemma_first(t: Seq<char>, p: Seq<char>, from: int, k: int)
    requires
        0 <= from <= k,
        occurs_at(t, p, k),
        forall|j: int| from <= j < k ==> !occurs_at(t, p, j),
    ensures
        find_from(t, p, from) == Some(k),
    decreases k - from,
{
    if from < k {
        assert(!occurs_at(t, p, from));
        lemma_first(t, p, from + 1, k);
    }
}

/// What is found is a call: the word `provider`, two names and double colons
/// between them.
pub proof fn found_calls_are_calls(t: Seq<char>, from: int, i: int)
    requires
        0 <= from <= t.len(),
        t.len() <= usize::MAX,
        0 <= i < calls_from(t, from).len(),
    ensures
        ({
            let x = calls_from(t, from)[i];
            &&& from <= x.start
            &&& t.subrange(x.start as int, x.local_start as int) == "provider::"@
            &&& x.local_start < x.local_end && x.fn_start < x.fn_end
            &&& x.fn_start == x.local_end + 2
            &&& t[x.local_end as int] == ':' && t[x.local_end + 1] == ':'
            &&& forall|j: int| x.local_start <= j < x.local_end ==> ident_char(#[trigger] t[j])
            &&& forall|j: int| x.fn_start <= j < x.fn_end ==> ident_char(#[trigger] t[j])
        }),
    decreases t.len() - from,
{
    reveal_strlit("provider::");
    crate::idents::lemma_find_from(t, "provider::"@, from);
    let k = find_from(t, "provider::"@, from)->0;
    let (c, next) = call_at(t, k);
    let local = k + 10;
    crate::idents::lemma_ident_end(t, local);
    let e = ident_end(t, local);
    if e + 1 < t.len() {
        crate::idents::lemma_ident_end(t, e + 2);
    }
    match c {
        Some(x) => {
            if i == 0 {
                assert(calls_from(t, from)[0] == x);
                assert forall|j: int| x.local_start <= j < x.local_end implies ident_char(
                    #[trigger] t[j],
                ) by {
                    lemma_word_chars(t, local, j);
                }
                assert forall|j: int| x.fn_start <= j < x.fn_end implies ident_char(
                    #[trigger] t[j],
                ) by {
                    lemma_word_chars(t, e + 2, j);
                }
            } else {
                assert(calls_from(t, from)[i] == calls_from(t, next)[i - 1]);
                found_calls_are_calls(t, next, i - 1);
            }
        },
        None => {
            found_calls_are_calls(t, next, i);
        },
    }
}

/// A call under a name that the module does not declare is an error; a call of a
/// function that a known provider does not have is a warning.
pub proof fn calls_are_judged(
    state: StateStore,
    uri: DocUri,
    t: Seq<char>,
    c: FnCall,
    start: crate::position::Position,
    end: crate::position::Position,
)
    requires
        offset_position(t, char_offset(t, c.start as int)) == Some(start),
        offset_position(t, char_offset(t, c.fn_end as int)) == Some(end),
    ensures
        ({
            let local = t.subrange(c.local_start as int, c.local_end as int);
            let f = t.subrange(c.fn_start as int, c.fn_end as int);
            let d = call_diagnostic(state, uri, t)(c);
            match provider_of_local(state, uri, local) {
                None => d is Some && (d->0).severity == Some(DiagnosticSeverity::Error) && (
                d->0).range.start == start && (d->0).range.end == end && holds(
                    (d->0).message,
                    "`"@ + local + "`"@,
                ),
                Some(provider) => {
                    let known = exists|i: int|
                        0 <= i < state.functions@.len() && is_function_of(
                            provider,
                            (#[trigger] state.functions@[i]).name@,
                        );
                    let found = exists|i: int|
                        0 <= i < state.functions@.len() && is_the_function(
                            provider,
                            f,
                            (#[trigger] state.functions@[i]).name@,
                        );
                    &&& d is Some <==> known && !found
                    &&& d is Some ==> (d->0).severity == Some(DiagnosticSeverity::Warning) && (
                    d->0).range.start == start && (d->0).range.end == end && (d->0).message
                        == "Provider `"@ + provider + "` does not expose a function `"@ + f + "`"@
                },
            }
        }),
{
    let local = t.subrange(c.local_start as int, c.local_end as int);
    let f = t.subrange(c.fn_start as int, c.fn_end as int);
    reveal_strlit("`");
    reveal_strlit("Unknown provider local name `");
    reveal_strlit("` — no entry in `terraform { required_providers { … } }`");
    let d = call_diagnostic(state, uri, t)(c);
    match provider_of_local(state, uri, local) {
        None => {
            let m = (d->0).message;
            let i = "Unknown provider local name `"@.len() - 1;
            let p = "`"@ + local + "`"@;
            assert(m.subrange(i, i + p.len()) =~= p);
        },
        Some(_) => {},
    }
}

/// A local name is looked up in the document itself before the other documents
/// of its module.
pub proof fn own_declarations_come_first(
    state: StateStore,
    uri: DocUri,
    local: Seq<char>,
    k: int,
    i: int,
)
    requires
        is_doc(state, uri.text@, k),
        state.documents@[k].body is Some,
    ensures
        local_provider(state.documents@[k].body->0, local) is Some ==> provider_of_local(
            state,
            uri,
            local,
        ) == local_provider(state.documents@[k].body->0, local),
        local_provider(state.documents@[k].body->0, local) is None && uri.dir is Some && 0 <= i
            < state.documents@.len() && state.documents@[i].uri.text@ != uri.text@
            && state.documents@[i].uri.dir is Some && state.documents@[i].uri.dir->0@
            == uri.dir->0@ && state.documents@[i].body is Some && local_provider(
            state.documents@[i].body->0,
            local,
        ) is Some && (forall|j: int|
            0 <= j < i ==> sibling_provider(uri, local)(#[trigger] state.documents@[j]) is None)
            ==> provider_of_local(state, uri, local) == local_provider(
            state.documents@[i].body->0,
            local,
        ),
        provider_of_local(state, uri, local) is Some ==> exists|j: int|
            0 <= j < state.documents@.len() && (#[trigger] state.documents@[j]).body is Some
                && local_provider(state.documents@[j].body->0, local) == provider_of_local(
                state,
                uri,
                local,
            ) && (state.documents@[j].uri.text@ == uri.text@ || (uri.dir is Some && opt_view(
                state.documents@[j].uri.dir,
            ) == opt_view(uri.dir))),
{
    lemma_doc(state, uri, k);
    let f = sibling_provider(uri, local);
    if local_provider(state.documents@[k].body->0, local) is None {
        if 0 <= i < state.documents@.len() && f(state.documents@[i]) is Some && (forall|j: int|
            0 <= j < i ==> f(#[trigger] state.documents@[j]) is None) {
            lemma_find_map_at(state.documents@, f, i);
        }
        if find_map(state.documents@, f) is Some {
            let j = lemma_find_map_first(state.documents@, f);
            assert(state.documents@[j].body is Some);
        }
    }
}

// ---------------------------------------------------------------------
// Commands

/// A command runs in the directory that its first argument names; without one it
/// is refused, and so is an unknown command.
pub proof fn commands_run_in_their_directory(command: Seq<char>, args: Seq<Json>, dir: Seq<char>, i: int)
    requires
        args.len() > 0,
        match args[0] {
            Json::Str(s) => s@ == dir,
            Json::Object(fields) => is_named(fields@, "workingDirectory"@, i) && (
            fields@[i].1 matches Json::Str(s) && s@ == dir),
            _ => false,
        },
    ensures
        command == "terraform-ls-rs.initWorkspace"@ ==> command_plan(command, args)
            == (PlanV::RunCli { dir, args: seq!["init"@, "-backend=false"@] }),
        command == "terraform-ls-rs.fetchSchemas"@ ==> command_plan(command, args)
            == (PlanV::FetchSchemas { dir }),
        command == "terraform-ls-rs.validate"@ ==> command_plan(command, args) == (PlanV::RunCli {
            dir,
            args: seq!["validate"@],
        }),
        command_plan(command, args) is InvalidParams <==> command
            != "terraform-ls-rs.initWorkspace"@ && command != "terraform-ls-rs.fetchSchemas"@
            && command != "terraform-ls-rs.validate"@,
{
    reveal_strlit("terraform-ls-rs.initWorkspace");
    reveal_strlit("terraform-ls-rs.fetchSchemas");
    reveal_strlit("terraform-ls-rs.validate");
    assert("terraform-ls-rs.initWorkspace"@.len() == 29);
    assert("terraform-ls-rs.fetchSchemas"@.len() == 28);
    assert("terraform-ls-rs.validate"@.len() == 24);
    if let Json::Object(fields) = args[0] {
        lemma_named(fields@, "workingDirectory"@, i);
    }
}

/// Without a directory nothing is run.
pub proof fn commands_without_a_directory_are_refused(command: Seq<char>, args: Seq<Json>)
    requires
        args.len() == 0 || match args[0] {
            Json::Str(_) => false,
            Json::Object(fields) => lacks(fields@, "workingDirectory"@),
            _ => true,
        },
    ensures
        command_plan(command, args) is InvalidParams,
{
    if args.len() > 0 {
        if let Json::Object(fields) = args[0] {
            lemma_lacks(fields@, "workingDirectory"@);
        }
    }
}

/// A finished run is reported with its own output and status, -1 where the run
/// had none; every other end is an error that names the binary.
pub proof fn runs_are_reported(binary: Seq<char>, timeout: u64, outcome: CliOutcome)
    ensures
        match outcome {
            CliOutcome::Done { code, stdout, stderr } => match report_of(
                binary,
                timeout,
                Some(outcome),
            ) {
                ReportV::Finished { status, stdout: o, stderr: e } => o == stdout@ && e == stderr@
                    && (code is Some ==> code == Some(status)) && (code is None ==> status == -1),
                _ => false,
            },
            _ => report_of(binary, timeout, Some(outcome)) matches ReportV::InternalError(m)
                && holds(m, binary),
        },
        report_of(binary, timeout, None) is Skipped,
{
    match report_of(binary, timeout, Some(outcome)) {
        ReportV::InternalError(m) => {
            match outcome {
                CliOutcome::NotSpawned(e) => {
                    let i = "failed to spawn "@.len() as int;
                    assert(m.subrange(i, i + binary.len()) =~= binary);
                },
                _ => {
                    assert(m.subrange(0, 0int + binary.len()) =~= binary);
                },
            }
        },
        _ => {},
    }
}

} // verus!
