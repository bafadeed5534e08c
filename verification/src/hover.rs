//! What a hover shows, and the hovers for words and calls.

use crate::hcl::block_label;
use crate::idents::{after_space, ident_end, slice_after_space, slice_ident_end};
use crate::navigation::{
    attribute_key_at, find_module_block_at, find_symbol_named, module_key_at, module_target,
    resolve_module_source, string_attribute, symbol_named,
};
use crate::position::{
    char_at_byte, hcl_span_to_lsp_range, lsp_position_to_byte_offset, position_offset,
    rope_byte_to_char, rope_len_bytes, rope_text, rope_to_string, span_range, utf8_len, Position,
    Range, Span,
};
use crate::schema::{find_entry, lookup};
use crate::seqs::{find_map, lemma_find_map_step, lemma_take_full};
use crate::state::{is_in_dir, DocumentState, FunctionEntry, FunctionParameter, StateStore};
use crate::text::{
    chars_of, concat2, concat3, concat5, opt_view, str_eq, str_trim, string_sub, trim,
};
use ropey::Rope;
use vstd::prelude::*;

verus! {

/// Text in Markdown, and the range that it is about.
#[derive(Debug)]
pub struct Hover {
    pub value: String,
    pub range: Option<Range>,
}

pub struct HoverV {
    pub value: Seq<char>,
    pub range: Option<Range>,
}

impl View for Hover {
    type V = HoverV;

    open spec fn view(&self) -> HoverV {
        HoverV { value: self.value@, range: self.range }
    }
}

pub open spec fn opt_hover(h: Option<Hover>) -> Option<HoverV> {
    match h {
        Some(h) => Some(h@),
        None => None,
    }
}

/// The identifier under the cursor and where it stands, in bytes.
#[derive(Debug)]
pub struct CursorWord {
    pub text: String,
    pub span: Span,
}

// ---------------------------------------------------------------------
// Functions

/// An opening parenthesis stands at a byte offset, after ASCII whitespace.
pub open spec fn paren_follows(t: Seq<char>, b: int) -> bool {
    if 0 <= b <= utf8_len(t) {
        let i = after_space(t, char_at_byte(t, b as nat));
        i < t.len() && t[i] == '('
    } else {
        false
    }
}

/// Does an opening parenthesis stand at a byte offset, after ASCII whitespace?
pub fn followed_by_open_paren(rope: &Rope, from: usize) -> (r: bool)
    ensures
        r == paren_follows(rope_text(*rope), from as int),
{
    if from > rope_len_bytes(rope) {
        return false;
    }
    let text = rope_to_string(rope);
    let t = chars_of(text.as_str());
    let i = slice_after_space(t.as_slice(), rope_byte_to_char(rope, from));
    i < t.len() && t[i] == '('
}

/// The line that a parameter has in the list of parameters.
pub open spec fn param_line(p: FunctionParameter, variadic: bool) -> Seq<char> {
    "- `"@ + p.name@ + (if variadic {
        "..."@
    } else {
        ""@
    }) + "`: "@ + p.type_label@ + (match opt_view(p.description) {
        Some(d) => if trim(d).len() == 0 {
            ""@
        } else {
            " — "@ + trim(d)
        },
        None => ""@,
    }) + "\n"@
}

fn append_param_line(out: &mut String, p: &FunctionParameter, variadic: bool)
    ensures
        final(out)@ == old(out)@ + param_line(*p, variadic),
{
    let suffix = if variadic {
        "..."
    } else {
        ""
    };
    let mut line = concat5("- `", p.name.as_str(), suffix, "`: ", p.type_label.as_str());
    let ghost head = line@;
    let mut tail = String::new();
    proof {
        reveal_strlit("");
        assert(tail@ =~= ""@);
    }
    if let Some(d) = &p.description {
        let d = str_trim(d.as_str());
        if !str_eq(d.as_str(), "") {
            proof {
                if d@.len() == 0 {
                    assert(d@ =~= ""@);
                }
            }
            tail = concat2(" — ", d.as_str());
        }
    }
    line.append(tail.as_str());
    line.append("\n");
    out.append(line.as_str());
}

pub open spec fn param_lines(v: Seq<FunctionParameter>, n: int) -> Seq<char>
    decreases n,
{
    if n <= 0 {
        Seq::empty()
    } else {
        param_lines(v, n - 1) + param_line(v[n - 1], false)
    }
}

pub open spec fn description_part(d: Option<Seq<char>>) -> Seq<char> {
    match d {
        Some(d) => if trim(d).len() == 0 {
            Seq::empty()
        } else {
            d + "\n\n"@
        },
        None => Seq::empty(),
    }
}

pub open spec fn parameters_part(f: FunctionEntry) -> Seq<char> {
    if f.parameters@.len() == 0 && f.variadic_parameter is None {
        Seq::empty()
    } else {
        "\n**Parameters**\n"@ + param_lines(f.parameters@, f.parameters@.len() as int) + (
        match f.variadic_parameter {
            Some(p) => param_line(p, true),
            None => Seq::empty(),
        })
    }
}

/// What a hover shows of a function.
pub open spec fn function_text(f: FunctionEntry) -> Seq<char> {
    "**function** `"@ + f.name@ + "`\n\n"@ + description_part(opt_view(f.description))
        + "```hcl\n"@ + f.label@ + "\n```\n"@ + parameters_part(f)
}

fn describe(d: &Option<String>) -> (r: String)
    ensures
        r@ == description_part(opt_view(*d)),
{
    if let Some(d) = d {
        let t = str_trim(d.as_str());
        proof {
            reveal_strlit("");
            if t@.len() == 0 {
                assert(t@ =~= ""@);
            }
        }
        if !str_eq(t.as_str(), "") {
            return concat2(d.as_str(), "\n\n");
        }
    }
    let r = String::new();
    assert(r@ =~= Seq::<char>::empty());
    r
}

fn list_parameters(f: &FunctionEntry) -> (r: String)
    ensures
        r@ == parameters_part(*f),
{
    if f.parameters.len() == 0 && f.variadic_parameter.is_none() {
        let r = String::new();
        assert(r@ =~= Seq::<char>::empty());
        return r;
    }
    let mut out = "\n**Parameters**\n".to_owned();
    let ghost head = out@;
    assert(out@ =~= head + param_lines(f.parameters@, 0));
    for i in 0..f.parameters.len()
        invariant
            out@ == head + param_lines(f.parameters@, i as int),
    {
        append_param_line(&mut out, &f.parameters[i], false);
        assert(out@ =~= head + param_lines(f.parameters@, i + 1));
    }
    if let Some(p) = &f.variadic_parameter {
        append_param_line(&mut out, p, true);
    }
    assert(out@ =~= parameters_part(*f));
    out
}

pub fn render_function(f: &FunctionEntry) -> (r: String)
    ensures
        r@ == function_text(*f),
{
    let mut out = concat3("**function** `", f.name.as_str(), "`\n\n");
    out.append(describe(&f.description).as_str());
    out.append("```hcl\n");
    out.append(f.label.as_str());
    out.append("\n```\n");
    out.append(list_parameters(f).as_str());
    out
}

/// The function that a hover is about: the one whose name the cursor is on, if
/// a parenthesis follows; else the one whose arguments it is in.
pub open spec fn function_at(
    t: Seq<char>,
    word: Option<&CursorWord>,
    named: Option<&FunctionEntry>,
    enclosing: Option<&FunctionEntry>,
) -> Option<FunctionEntry> {
    match (word, named) {
        (Some(w), Some(f)) => if paren_follows(t, w.span.end as int) {
            Some(*f)
        } else {
            match enclosing {
                Some(e) => Some(*e),
                None => None,
            }
        },
        _ => match enclosing {
            Some(e) => Some(*e),
            None => None,
        },
    }
}

/// The hover for a function call. `word` is the identifier under the cursor,
/// `named` the function that it names, `enclosing` the function in whose
/// arguments the cursor is.
pub fn function_hover(
    doc: &DocumentState,
    pos: Position,
    word: Option<&CursorWord>,
    named: Option<&FunctionEntry>,
    enclosing: Option<&FunctionEntry>,
) -> (r: Option<Hover>)
    ensures
        opt_hover(r) == if position_offset(rope_text(doc.rope), pos) is None {
            None
        } else {
            match function_at(rope_text(doc.rope), word, named, enclosing) {
                Some(f) => Some(HoverV { value: function_text(f), range: None }),
                None => None,
            }
        },
{
    if lsp_position_to_byte_offset(&doc.rope, pos).is_none() {
        return None;
    }
    if let Some(w) = word {
        if let Some(f) = named {
            if followed_by_open_paren(&doc.rope, w.span.end) {
                return Some(Hover { value: render_function(f), range: None });
            }
        }
    }
    match enclosing {
        Some(f) => Some(Hover { value: render_function(f), range: None }),
        None => None,
    }
}

// ---------------------------------------------------------------------
// Inputs of modules

/// The variable of a document in a directory, with how its type is written.
pub open spec fn variable_in(dir: Seq<char>, name: Seq<char>) -> spec_fn(DocumentState) -> Option<
    (Seq<char>, Option<Seq<char>>),
> {
    |d: DocumentState|
        if opt_view(d.uri.dir) == Some(dir) {
            match find_map(d.symbols.variables@, symbol_named(name)) {
                Some(s) => Some(
                    (
                        match lookup(d.symbols.variable_types@, name) {
                            Some(ty) => ty.text@,
                            None => "any"@,
                        },
                        opt_view(s.doc),
                    ),
                ),
                None => None,
            }
        } else {
            None
        }
}

/// What a hover shows of a module's variable.
pub open spec fn input_text(name: Seq<char>, ty: Seq<char>, doc: Option<Seq<char>>) -> Seq<char> {
    "### `"@ + name + "`  *("@ + ty + ")*"@ + (match doc {
        Some(d) => if d.len() == 0 {
            Seq::empty()
        } else {
            "\n\n"@ + d
        },
        None => Seq::empty(),
    })
}

fn render_input(name: &str, ty: &str, doc: &Option<String>) -> (r: String)
    ensures
        r@ == input_text(name@, ty@, opt_view(*doc)),
{
    let mut out = concat5("### `", name, "`  *(", ty, ")*");
    let ghost head = out@;
    if let Some(d) = doc {
        proof {
            reveal_strlit("");
            if d@.len() == 0 {
                assert(d@ =~= ""@);
            }
        }
        if !str_eq(d.as_str(), "") {
            out.append(concat2("\n\n", d.as_str()).as_str());
            return out;
        }
    }
    assert(out@ =~= head + Seq::<char>::empty());
    out
}

fn child_variable_text(state: &StateStore, dir: &str, name: &str) -> (r: Option<String>)
    ensures
        match find_map(state.documents@, variable_in(dir@, name@)) {
            Some((ty, doc)) => opt_view(r) == Some(input_text(name@, ty, doc)),
            None => r is None,
        },
{
    let ghost s = state.documents@;
    let ghost f = variable_in(dir@, name@);
    proof {
        lemma_take_full(s);
    }
    for i in 0..state.documents.len()
        invariant
            s == state.documents@,
            f == variable_in(dir@, name@),
            find_map(s, f) == find_map(s.skip(i as int), f),
    {
        proof {
            lemma_find_map_step(s, f, i as int);
        }
        let d = &state.documents[i];
        if is_in_dir(d, dir) {
            if let Some(sym) = find_symbol_named(&d.symbols.variables, name) {
                return match find_entry(&d.symbols.variable_types, name) {
                    Some(ty) => Some(render_input(name, ty.text.as_str(), &sym.doc)),
                    None => Some(render_input(name, "any", &sym.doc)),
                };
            }
        }
    }
    None
}

/// The hover for a key of a module call: the variable of the called module.
pub open spec fn module_input_answer(state: StateStore, doc: DocumentState, pos: Position) -> Option<
    HoverV,
> {
    let t = rope_text(doc.rope);
    match (doc.body, position_offset(t, pos)) {
        (Some(body), Some(offset)) => match module_key_at(body, t, offset) {
            Some((label, source, key, range)) => match opt_view(doc.uri.dir) {
                Some(dir) => match module_target(state.module_dirs@, dir, label, source) {
                    Some(child) => match find_map(state.documents@, variable_in(child, key)) {
                        Some((ty, d)) => Some(
                            HoverV { value: input_text(key, ty, d), range: Some(range) },
                        ),
                        None => None,
                    },
                    None => None,
                },
                None => None,
            },
            None => None,
        },
        _ => None,
    }
}

pub fn module_input_hover(state: &StateStore, doc: &DocumentState, pos: Position) -> (r: Option<
    Hover,
>)
    ensures
        opt_hover(r) == module_input_answer(*state, *doc, pos),
{
    let body = match &doc.body {
        Some(b) => b,
        None => {
            return None;
        },
    };
    let offset = match lsp_position_to_byte_offset(&doc.rope, pos) {
        Some(o) => o,
        None => {
            return None;
        },
    };
    let block = match find_module_block_at(body, offset) {
        Some(b) => b,
        None => {
            return None;
        },
    };
    let label = match block_label(block, 0) {
        Some(l) => l,
        None => {
            return None;
        },
    };
    let source = match string_attribute(block, "source") {
        Some(s) => s,
        None => {
            return None;
        },
    };
    let (key, range) = match attribute_key_at(&block.body, offset, &doc.rope) {
        Some(k) => k,
        None => {
            return None;
        },
    };
    match &doc.uri.dir {
        Some(dir) => match resolve_module_source(
            &state.module_dirs,
            dir.as_str(),
            label,
            source.as_str(),
        ) {
            Some(child) => match child_variable_text(state, child, key) {
                Some(value) => Some(Hover { value, range: Some(range) }),
                None => None,
            },
            None => None,
        },
        None => None,
    }
}

// ---------------------------------------------------------------------
// Named values and type constraints

/// A value that the language itself defines, such as `path.module` or `self`,
/// and what it is.
#[derive(Debug)]
pub struct NamedValue {
    pub head: String,
    pub attr: Option<String>,
    pub description: String,
}

pub open spec fn is_head(values: Seq<NamedValue>, word: Seq<char>) -> bool {
    exists|i: int| 0 <= i < values.len() && (#[trigger] values[i]).head@ == word
}

pub open spec fn described(head: Seq<char>, attr: Option<Seq<char>>) -> spec_fn(
    NamedValue,
) -> Option<Seq<char>> {
    |v: NamedValue|
        if v.head@ == head && opt_view(v.attr) == attr && v.description@.len() > 0 {
            Some(v.description@)
        } else {
            None
        }
}

fn named_head(values: &Vec<NamedValue>, word: &str) -> (r: bool)
    ensures
        r == is_head(values@, word@),
{
    for i in 0..values.len()
        invariant
            forall|j: int| 0 <= j < i ==> (#[trigger] values@[j]).head@ != word@,
    {
        if str_eq(values[i].head.as_str(), word) {
            assert(values@[i as int].head@ == word@);
            return true;
        }
    }
    false
}

fn find_description(values: &Vec<NamedValue>, head: &str, attr: &Option<String>) -> (r: Option<
    String,
>)
    ensures
        opt_view(r) == find_map(values@, described(head@, opt_view(*attr))),
{
    let ghost f = described(head@, opt_view(*attr));
    proof {
        lemma_take_full(values@);
        reveal_strlit("");
    }
    for i in 0..values.len()
        invariant
            ""@.len() == 0,
            f == described(head@, opt_view(*attr)),
            find_map(values@, f) == find_map(values@.skip(i as int), f),
    {
        proof {
            lemma_find_map_step(values@, f, i as int);
            if values@[i as int].description@.len() == 0 {
                assert(values@[i as int].description@ =~= ""@);
            }
        }
        let v = &values[i];
        if str_eq(v.head.as_str(), head) && crate::state::same_dir(&v.attr, attr) && !str_eq(
            v.description.as_str(),
            "",
        ) {
            return Some(v.description.clone());
        }
    }
    None
}

/// The identifier behind a dot at a byte offset.
pub open spec fn attr_after(t: Seq<char>, b: int) -> Option<Seq<char>> {
    if 0 <= b <= utf8_len(t) {
        let i = char_at_byte(t, b as nat);
        if i < t.len() && t[i] == '.' {
            let end = ident_end(t, i + 1);
            if end == i + 1 {
                None
            } else {
                Some(t.subrange(i + 1, end))
            }
        } else {
            None
        }
    } else {
        None
    }
}

/// The identifier behind a dot at a byte offset.
pub fn read_attr_after(rope: &Rope, from: usize) -> (r: Option<String>)
    ensures
        opt_view(r) == attr_after(rope_text(*rope), from as int),
{
    if from > rope_len_bytes(rope) {
        return None;
    }
    let text = rope_to_string(rope);
    let t = chars_of(text.as_str());
    let i = rope_byte_to_char(rope, from);
    let n: usize = t.len();
    if i >= n || t[i] != '.' {
        return None;
    }
    let end = slice_ident_end(t.as_slice(), i + 1);
    if end == i + 1 {
        return None;
    }
    Some(string_sub(t.as_slice(), i + 1, end))
}

/// A dot ends at a byte offset.
pub open spec fn dot_before(t: Seq<char>, b: int) -> bool {
    0 < b <= utf8_len(t) && {
        let i = char_at_byte(t, (b - 1) as nat);
        i < t.len() && t[i] == '.'
    }
}

fn preceded_by_dot(rope: &Rope, b: usize) -> (r: bool)
    ensures
        r == dot_before(rope_text(*rope), b as int),
{
    if b == 0 || b > rope_len_bytes(rope) {
        return false;
    }
    let text = rope_to_string(rope);
    let t = chars_of(text.as_str());
    let i = rope_byte_to_char(rope, b - 1);
    i < t.len() && t[i] == '.'
}

/// The named value that the cursor is on: on its head, with the attribute
/// behind it, or on its attribute. `before` is the identifier that ends at the
/// dot before the word.
pub open spec fn value_under(
    t: Seq<char>,
    values: Seq<NamedValue>,
    word: CursorWord,
    before: Option<&CursorWord>,
) -> Option<(Seq<char>, Option<Seq<char>>)> {
    if is_head(values, word.text@) {
        Some((word.text@, attr_after(t, word.span.end as int)))
    } else if dot_before(t, word.span.start as int) {
        match before {
            Some(h) => if is_head(values, h.text@) {
                Some((h.text@, Some(word.text@)))
            } else {
                None
            },
            None => None,
        }
    } else {
        None
    }
}

/// The hover for a named value.
pub open spec fn named_value_answer(
    doc: DocumentState,
    pos: Position,
    values: Seq<NamedValue>,
    word: Option<&CursorWord>,
    before: Option<&CursorWord>,
) -> Option<HoverV> {
    let t = rope_text(doc.rope);
    if position_offset(t, pos) is None {
        None
    } else {
        match word {
            Some(w) => match value_under(t, values, *w, before) {
                Some((head, attr)) => match find_map(values, described(head, attr)) {
                    Some(d) => Some(HoverV { value: d, range: span_range(t, w.span) }),
                    None => None,
                },
                None => None,
            },
            None => None,
        }
    }
}

pub fn named_value_hover(
    doc: &DocumentState,
    pos: Position,
    values: &Vec<NamedValue>,
    word: Option<&CursorWord>,
    before: Option<&CursorWord>,
) -> (r: Option<Hover>)
    ensures
        opt_hover(r) == named_value_answer(*doc, pos, values@, word, before),
{
    if lsp_position_to_byte_offset(&doc.rope, pos).is_none() {
        return None;
    }
    let w = match word {
        Some(w) => w,
        None => {
            return None;
        },
    };
    let (head, attr): (String, Option<String>) = if named_head(values, w.text.as_str()) {
        (w.text.clone(), read_attr_after(&doc.rope, w.span.end))
    } else if preceded_by_dot(&doc.rope, w.span.start) {
        match before {
            Some(h) => {
                if !named_head(values, h.text.as_str()) {
                    return None;
                }
                (h.text.clone(), Some(w.text.clone()))
            },
            None => {
                return None;
            },
        }
    } else {
        return None;
    };
    match find_description(values, head.as_str(), &attr) {
        Some(value) => Some(Hover { value, range: hcl_span_to_lsp_range(&doc.rope, w.span) }),
        None => None,
    }
}

/// The hover for a keyword of a type constraint. `keywords` says what each is;
/// `in_type` says whether the word stands in a type expression.
pub open spec fn type_constraint_answer(
    doc: DocumentState,
    pos: Position,
    keywords: Seq<(String, String)>,
    word: Option<&CursorWord>,
    in_type: bool,
) -> Option<HoverV> {
    let t = rope_text(doc.rope);
    if position_offset(t, pos) is None {
        None
    } else {
        match word {
            Some(w) => match lookup(keywords, w.text@) {
                Some(d) => if in_type && d@.len() > 0 {
                    Some(
                        HoverV {
                            value: "**type constraint** `"@ + w.text@ + "`\n\n"@ + d@,
                            range: span_range(t, w.span),
                        },
                    )
                } else {
                    None
                },
                None => None,
            },
            None => None,
        }
    }
}

pub fn type_constraint_hover(
    doc: &DocumentState,
    pos: Position,
    keywords: &Vec<(String, String)>,
    word: Option<&CursorWord>,
    in_type: bool,
) -> (r: Option<Hover>)
    ensures
        opt_hover(r) == type_constraint_answer(*doc, pos, keywords@, word, in_type),
{
    if lsp_position_to_byte_offset(&doc.rope, pos).is_none() {
        return None;
    }
    let w = match word {
        Some(w) => w,
        None => {
            return None;
        },
    };
    match find_entry(keywords, w.text.as_str()) {
        Some(d) => {
            proof {
                reveal_strlit("");
                if d@.len() == 0 {
                    assert(d@ =~= ""@);
                }
            }
            if !in_type || str_eq(d.as_str(), "") {
                return None;
            }
            let mut value = concat3("**type constraint** `", w.text.as_str(), "`\n\n");
            value.append(d.as_str());
            Some(Hover { value, range: hcl_span_to_lsp_range(&doc.rope, w.span) })
        },
        None => None,
    }
}

/// Outside a type expression no word gets the hover of a keyword.
pub proof fn keywords_are_described_in_types_only(
    doc: DocumentState,
    pos: Position,
    keywords: Seq<(String, String)>,
    word: Option<&CursorWord>,
)
    ensures
        type_constraint_answer(doc, pos, keywords, word, false) is None,
{
}

} // verus!
