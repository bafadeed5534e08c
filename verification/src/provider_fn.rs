//! Calls of provider-defined functions: `provider::LOCAL::fn(...)`.
//!
//! An unknown `LOCAL` is an error. A function that its provider does not have
//! is a warning, once any function of that provider is known.

use crate::actions::{diagnostics_view, Diagnostic, DiagnosticSeverity, DiagnosticV};
use crate::state::{find_doc, primary_doc};
use crate::idents::{
    after_blanks, ident_char, ident_end, is_ident_char, lemma_find_from, lemma_ident_end,
    slice_after_blanks, slice_ident_end,
};
use crate::position::{
    char_offset, char_to_lsp_position, offset_position, rope_text, rope_to_string, Range,
};
use crate::providers::{local_provider, required_providers_local_to_name_pub};
use crate::seqs::{
    filter_map, find_map, lemma_filter_map_step, lemma_find_map_step, lemma_take_full,
};
use crate::state::{DocUri, DocumentState, FunctionEntry, StateStore};
use crate::text::{
    chars_of, concat3, concat5, contains_text, ends_with, find_from, opt_view, slice_find_from,
    starts_with, str_contains, str_ends_with, str_eq, str_starts_with, string_sub,
};
use vstd::prelude::*;

verus! {

// ---------------------------------------------------------------------
// The calls in a text

/// A call: where `provider` starts, the local name and the function name.
#[derive(Debug, Clone, Copy, PartialEq, Eq, Structural)]
pub struct FnCall {
    pub start: usize,
    pub local_start: usize,
    pub local_end: usize,
    pub fn_start: usize,
    pub fn_end: usize,
}

/// The call whose keyword starts at `k`, where there is one, and where the
/// search goes on.
pub open spec fn call_at(t: Seq<char>, k: int) -> (Option<FnCall>, int) {
    let local = k + 10;
    if k > 0 && ident_char(t[k - 1]) {
        (None, local)
    } else {
        let local_end = ident_end(t, local);
        if local_end == local || local_end + 1 >= t.len() || t[local_end] != ':' || t[local_end + 1]
            != ':' {
            (None, local)
        } else {
            let name = local_end + 2;
            let name_end = ident_end(t, name);
            let paren = after_blanks(t, name_end);
            if name_end == name {
                (None, name)
            } else if paren >= t.len() || t[paren] != '(' {
                (None, name_end)
            } else {
                (
                    Some(
                        FnCall {
                            start: k as usize,
                            local_start: local as usize,
                            local_end: local_end as usize,
                            fn_start: name as usize,
                            fn_end: name_end as usize,
                        },
                    ),
                    name_end,
                )
            }
        }
    }
}

pub open spec fn prepend(c: Option<FnCall>, rest: Seq<FnCall>) -> Seq<FnCall> {
    match c {
        Some(c) => seq![c] + rest,
        None => rest,
    }
}

/// The calls in a text from character `from` on.
pub open spec fn calls_from(t: Seq<char>, from: int) -> Seq<FnCall>
    decreases t.len() - from,
{
    match find_from(t, "provider::"@, from) {
        Some(k) => {
            let (c, next) = call_at(t, k);
            if from < next <= t.len() {
                prepend(c, calls_from(t, next))
            } else {
                Seq::empty()
            }
        },
        None => Seq::empty(),
    }
}

proof fn lemma_call_at(t: Seq<char>, k: int)
    requires
        0 <= k,
        k + 10 <= t.len(),
    ensures
        k + 10 <= call_at(t, k).1 <= t.len(),
{
    lemma_ident_end(t, k + 10);
    let e = ident_end(t, k + 10);
    if e + 1 < t.len() {
        lemma_ident_end(t, e + 2);
    }
}

fn scan_call(t: &[char], k: usize) -> (r: (Option<FnCall>, usize))
    requires
        k + 10 <= t@.len(),
    ensures
        r.0 == call_at(t@, k as int).0,
        r.1 == call_at(t@, k as int).1,
{
    let n: usize = t.len();
    let local: usize = k + 10;
    if k > 0 && is_ident_char(t[k - 1]) {
        return (None, local);
    }
    let local_end = slice_ident_end(t, local);
    if local_end == local || n - local_end <= 1 || t[local_end] != ':' || t[local_end + 1] != ':' {
        return (None, local);
    }
    let name: usize = local_end + 2;
    let name_end = slice_ident_end(t, name);
    if name_end == name {
        return (None, name);
    }
    let paren = slice_after_blanks(t, name_end);
    if paren >= n || t[paren] != '(' {
        return (None, name_end);
    }
    (
        Some(
            FnCall {
                start: k,
                local_start: local,
                local_end,
                fn_start: name,
                fn_end: name_end,
            },
        ),
        name_end,
    )
}

/// Every call of a provider-defined function in a text, with character
/// indices.
pub fn provider_function_calls(t: &[char]) -> (r: Vec<FnCall>)
    ensures
        r@ == calls_from(t@, 0),
{
    let needle = chars_of("provider::");
    proof {
        reveal_strlit("provider::");
    }
    let mut out: Vec<FnCall> = Vec::new();
    let mut from: usize = 0;
    loop
        invariant
            needle@ == "provider::"@,
            needle@.len() == 10,
            from <= t@.len(),
            calls_from(t@, 0) == out@ + calls_from(t@, from as int),
        decreases t@.len() - from,
    {
        match slice_find_from(t, needle.as_slice(), from) {
            Some(k) => {
                proof {
                    lemma_find_from(t@, needle@, from as int);
                    lemma_call_at(t@, k as int);
                }
                let (c, next) = scan_call(t, k);
                let ghost before = out@;
                if let Some(c) = c {
                    out.push(c);
                }
                assert(out@ + calls_from(t@, next as int) =~= before + prepend(
                    c,
                    calls_from(t@, next as int),
                ));
                from = next;
            },
            None => {
                assert(out@ + Seq::<FnCall>::empty() =~= out@);
                return out;
            },
        }
    }
}

// ---------------------------------------------------------------------
// What a local name stands for

/// The provider that a document of the same module declares under a name.
pub open spec fn sibling_provider(uri: DocUri, local: Seq<char>) -> spec_fn(
    DocumentState,
) -> Option<Seq<char>> {
    |d: DocumentState|
        if d.uri.text@ != uri.text@ && uri.dir is Some && opt_view(d.uri.dir) == opt_view(
            uri.dir,
        ) {
            match d.body {
                Some(body) => local_provider(body, local),
                None => None,
            }
        } else {
            None
        }
}

pub open spec fn own_provider(state: StateStore, uri: DocUri, local: Seq<char>) -> Option<
    Seq<char>,
> {
    match find_map(state.documents@, primary_doc(uri)) {
        Some(d) => match d.body {
            Some(body) => local_provider(body, local),
            None => None,
        },
        None => None,
    }
}

/// The provider that a local name stands for: by the document itself, else by
/// another document of its module.
pub open spec fn provider_of_local(state: StateStore, uri: DocUri, local: Seq<char>) -> Option<
    Seq<char>,
> {
    match own_provider(state, uri, local) {
        Some(name) => Some(name),
        None => find_map(state.documents@, sibling_provider(uri, local)),
    }
}

pub fn lookup_local(state: &StateStore, uri: &DocUri, local: &str) -> (r: Option<String>)
    ensures
        opt_view(r) == provider_of_local(*state, *uri, local@),
{
    if let Some(doc) = find_doc(state, uri) {
        if let Some(body) = &doc.body {
            let name = required_providers_local_to_name_pub(body, local);
            if name.is_some() {
                return name;
            }
        }
    }
    let ghost s = state.documents@;
    let ghost f = sibling_provider(*uri, local@);
    proof {
        lemma_take_full(s);
    }
    for i in 0..state.documents.len()
        invariant
            s == state.documents@,
            f == sibling_provider(*uri, local@),
            find_map(s, f) == find_map(s.skip(i as int), f),
            own_provider(*state, *uri, local@) is None,
    {
        proof {
            lemma_find_map_step(s, f, i as int);
        }
        let d = &state.documents[i];
        if !str_eq(d.uri.text.as_str(), uri.text.as_str()) && uri.dir.is_some()
            && crate::state::same_dir(&d.uri.dir, &uri.dir) {
            if let Some(body) = &d.body {
                let name = required_providers_local_to_name_pub(body, local);
                if name.is_some() {
                    return name;
                }
            }
        }
    }
    None
}

// ---------------------------------------------------------------------
// Which functions a provider has

pub open spec fn is_function_of(provider: Seq<char>, name: Seq<char>) -> bool {
    starts_with(name, "provider::"@) && contains_text(name, "::"@ + provider + "::"@)
}

pub open spec fn any_function(functions: Seq<FunctionEntry>, provider: Seq<char>) -> bool {
    exists|i: int|
        0 <= i < functions.len() && is_function_of(provider, (#[trigger] functions[i]).name@)
}

pub open spec fn is_the_function(provider: Seq<char>, f: Seq<char>, name: Seq<char>) -> bool {
    starts_with(name, "provider::"@) && ends_with(name, "::"@ + provider + "::"@ + f)
}

pub open spec fn has_function(functions: Seq<FunctionEntry>, provider: Seq<char>, f: Seq<char>) -> bool {
    exists|i: int|
        0 <= i < functions.len() && is_the_function(provider, f, (#[trigger] functions[i]).name@)
}

pub fn provider_has_any_function(state: &StateStore, provider: &str) -> (r: bool)
    ensures
        r == any_function(state.functions@, provider@),
{
    let needle = concat3("::", provider, "::");
    for i in 0..state.functions.len()
        invariant
            needle@ == "::"@ + provider@ + "::"@,
            forall|j: int|
                0 <= j < i ==> !is_function_of(provider@, (#[trigger] state.functions@[j]).name@),
    {
        let name = state.functions[i].name.as_str();
        if str_starts_with(name, "provider::") && str_contains(name, needle.as_str()) {
            assert(is_function_of(provider@, state.functions@[i as int].name@));
            return true;
        }
    }
    false
}

pub fn provider_has_function(state: &StateStore, provider: &str, fn_name: &str) -> (r: bool)
    ensures
        r == has_function(state.functions@, provider@, fn_name@),
{
    let mut suffix = concat3("::", provider, "::");
    suffix.append(fn_name);
    for i in 0..state.functions.len()
        invariant
            suffix@ == "::"@ + provider@ + "::"@ + fn_name@,
            forall|j: int|
                0 <= j < i ==> !is_the_function(
                    provider@,
                    fn_name@,
                    (#[trigger] state.functions@[j]).name@,
                ),
    {
        let name = state.functions[i].name.as_str();
        if str_starts_with(name, "provider::") && str_ends_with(name, suffix.as_str()) {
            assert(is_the_function(provider@, fn_name@, state.functions@[i as int].name@));
            return true;
        }
    }
    false
}

// ---------------------------------------------------------------------
// Diagnostics

pub open spec fn unknown_local(range: Range, local: Seq<char>) -> DiagnosticV {
    DiagnosticV {
        range,
        severity: Some(DiagnosticSeverity::Error),
        source: Some("terraform-ls-rs"@),
        message: "Unknown provider local name `"@ + local
            + "` — no entry in `terraform { required_providers { … } }`"@,
    }
}

pub open spec fn unknown_function(range: Range, provider: Seq<char>, f: Seq<char>) -> DiagnosticV {
    DiagnosticV {
        range,
        severity: Some(DiagnosticSeverity::Warning),
        source: Some("terraform-ls-rs"@),
        message: "Provider `"@ + provider + "` does not expose a function `"@ + f + "`"@,
    }
}

pub open spec fn call_range(t: Seq<char>, c: FnCall) -> Option<Range> {
    match (
        offset_position(t, char_offset(t, c.start as int)),
        offset_position(t, char_offset(t, c.fn_end as int)),
    ) {
        (Some(start), Some(end)) => Some(Range { start, end }),
        _ => None,
    }
}

/// What is wrong with a call.
pub open spec fn call_diagnostic(state: StateStore, uri: DocUri, t: Seq<char>) -> spec_fn(
    FnCall,
) -> Option<DiagnosticV> {
    |c: FnCall|
        {
            let local = t.subrange(c.local_start as int, c.local_end as int);
            let f = t.subrange(c.fn_start as int, c.fn_end as int);
            match call_range(t, c) {
                Some(range) => match provider_of_local(state, uri, local) {
                    None => Some(unknown_local(range, local)),
                    Some(provider) => if any_function(state.functions@, provider) && !has_function(
                        state.functions@,
                        provider,
                        f,
                    ) {
                        Some(unknown_function(range, provider, f))
                    } else {
                        None
                    },
                },
                None => None,
            }
        }
}

pub open spec fn opt_diagnostic(d: Option<Diagnostic>) -> Option<DiagnosticV> {
    match d {
        Some(d) => Some(d@),
        None => None,
    }
}

fn judge_call(state: &StateStore, uri: &DocUri, doc: &DocumentState, t: &[char], c: FnCall) -> (r:
    Option<Diagnostic>)
    requires
        t@ == rope_text(doc.rope),
        c.start <= t@.len(),
        c.local_start <= c.local_end <= t@.len(),
        c.fn_start <= c.fn_end <= t@.len(),
    ensures
        opt_diagnostic(r) == call_diagnostic(*state, *uri, t@)(c),
{
    let start = match char_to_lsp_position(&doc.rope, c.start) {
        Some(p) => p,
        None => {
            return None;
        },
    };
    let end = match char_to_lsp_position(&doc.rope, c.fn_end) {
        Some(p) => p,
        None => {
            return None;
        },
    };
    let range = Range { start, end };
    let local = string_sub(t, c.local_start, c.local_end);
    let f = string_sub(t, c.fn_start, c.fn_end);
    match lookup_local(state, uri, local.as_str()) {
        None => Some(
            Diagnostic {
                range,
                severity: Some(DiagnosticSeverity::Error),
                source: Some("terraform-ls-rs".to_owned()),
                message: concat3(
                    "Unknown provider local name `",
                    local.as_str(),
                    "` — no entry in `terraform { required_providers { … } }`",
                ),
            },
        ),
        Some(provider) => {
            if !provider_has_any_function(state, provider.as_str()) || provider_has_function(
                state,
                provider.as_str(),
                f.as_str(),
            ) {
                return None;
            }
            Some(
                Diagnostic {
                    range,
                    severity: Some(DiagnosticSeverity::Warning),
                    source: Some("terraform-ls-rs".to_owned()),
                    message: concat5(
                        "Provider `",
                        provider.as_str(),
                        "` does not expose a function `",
                        f.as_str(),
                        "`",
                    ),
                },
            )
        },
    }
}

/// A call lies within the text, its parts in order.
pub open spec fn call_within(t: Seq<char>, c: FnCall) -> bool {
    c.start < c.local_start < c.local_end < c.fn_start < c.fn_end <= t.len()
}

/// Every call found lies within the text, its parts in order.
pub proof fn calls_lie_within(t: Seq<char>, from: int, i: int)
    requires
        0 <= from <= t.len(),
        t.len() <= usize::MAX,
        0 <= i < calls_from(t, from).len(),
    ensures
        call_within(t, calls_from(t, from)[i]),
    decreases t.len() - from,
{
    reveal_strlit("provider::");
    lemma_find_from(t, "provider::"@, from);
    let k = find_from(t, "provider::"@, from)->0;
    lemma_call_at(t, k);
    lemma_ident_end(t, k + 10);
    let e = ident_end(t, k + 10);
    if e + 1 < t.len() {
        lemma_ident_end(t, e + 2);
    }
    let (c, next) = call_at(t, k);
    match c {
        Some(_) => {
            if i > 0 {
                calls_lie_within(t, next, i - 1);
                assert(calls_from(t, from)[i] == calls_from(t, next)[i - 1]);
            }
        },
        None => {
            calls_lie_within(t, next, i);
        },
    }
}

/// The findings on the calls of provider-defined functions in a document.
pub fn provider_function_call_diagnostics(
    state: &StateStore,
    uri: &DocUri,
    doc: &DocumentState,
) -> (r: Vec<Diagnostic>)
    ensures
        diagnostics_view(r@) == filter_map(
            calls_from(rope_text(doc.rope), 0),
            call_diagnostic(*state, *uri, rope_text(doc.rope)),
        ),
{
    let text = rope_to_string(&doc.rope);
    let t = chars_of(text.as_str());
    let calls = provider_function_calls(t.as_slice());
    let ghost s = calls_from(t@, 0);
    let ghost f = call_diagnostic(*state, *uri, t@);
    let mut out: Vec<Diagnostic> = Vec::new();
    proof {
        lemma_take_full(s);
    }
    assert(diagnostics_view(out@) =~= filter_map(s.take(0), f));
    let len: usize = t.len();
    for i in 0..calls.len()
        invariant
            t@ == rope_text(doc.rope),
            len == t@.len(),
            calls@ == s,
            s == calls_from(t@, 0),
            f == call_diagnostic(*state, *uri, t@),
            diagnostics_view(out@) == filter_map(s.take(i as int), f),
    {
        proof {
            lemma_filter_map_step(s, f, i as int);
            calls_lie_within(t@, 0, i as int);
        }
        let ghost before = diagnostics_view(out@);
        if let Some(d) = judge_call(state, uri, doc, t.as_slice(), calls[i]) {
            out.push(d);
            assert(diagnostics_view(out@) =~= before.push(d@));
        }
    }
    out
}

/// As long as no function of a provider is known, no call of it is warned of.
pub proof fn unfetched_providers_are_not_judged(
    state: StateStore,
    uri: DocUri,
    t: Seq<char>,
    c: FnCall,
)
    requires
        provider_of_local(state, uri, t.subrange(c.local_start as int, c.local_end as int))
            matches Some(p) && !any_function(state.functions@, p),
    ensures
        call_diagnostic(state, uri, t)(c) is None,
{
}

} // verus!
