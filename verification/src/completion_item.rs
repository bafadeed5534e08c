//! Completion items and their order.

use crate::actions::copy_opt;
use crate::order::{lemma_text_lt_total, lemma_text_lt_transitive, str_lt, text_lt};
use crate::position::{EditV, TextEdit};
use crate::text::opt_view;
use vstd::prelude::*;

verus! {

#[derive(Debug, Clone, Copy, PartialEq, Eq, Structural)]
pub enum ItemKind {
    Class,
    Constructor,
    EnumMember,
    Field,
    Function,
    Keyword,
    Module,
    Operator,
    Property,
    Reference,
    Snippet,
    Struct,
    TypeParameter,
    Value,
    Variable,
}

/// How the inserted text is to be read: as it stands, or with tabstops.
#[derive(Debug, Clone, Copy, PartialEq, Eq, Structural)]
pub enum InsertFormat {
    PlainText,
    Snippet,
}

#[derive(Debug)]
pub struct CompletionItem {
    pub label: String,
    pub kind: Option<ItemKind>,
    pub detail: Option<String>,
    /// Markdown.
    pub documentation: Option<String>,
    pub insert_text: Option<String>,
    pub insert_text_format: Option<InsertFormat>,
    pub sort_text: Option<String>,
    pub filter_text: Option<String>,
    pub text_edit: Option<TextEdit>,
    pub preselect: bool,
    /// Clients strike the label through.
    pub deprecated: bool,
}

#[verifier::ext_equal]
pub struct ItemV {
    pub label: Seq<char>,
    pub kind: Option<ItemKind>,
    pub detail: Option<Seq<char>>,
    pub documentation: Option<Seq<char>>,
    pub insert_text: Option<Seq<char>>,
    pub insert_text_format: Option<InsertFormat>,
    pub sort_text: Option<Seq<char>>,
    pub filter_text: Option<Seq<char>>,
    pub text_edit: Option<EditV>,
    pub preselect: bool,
    pub deprecated: bool,
}

pub open spec fn opt_text_edit(e: Option<TextEdit>) -> Option<EditV> {
    match e {
        Some(e) => Some(e@),
        None => None,
    }
}

impl View for CompletionItem {
    type V = ItemV;

    open spec fn view(&self) -> ItemV {
        ItemV {
            label: self.label@,
            kind: self.kind,
            detail: opt_view(self.detail),
            documentation: opt_view(self.documentation),
            insert_text: opt_view(self.insert_text),
            insert_text_format: self.insert_text_format,
            sort_text: opt_view(self.sort_text),
            filter_text: opt_view(self.filter_text),
            text_edit: opt_text_edit(self.text_edit),
            preselect: self.preselect,
            deprecated: self.deprecated,
        }
    }
}

pub open spec fn items_view(v: Seq<CompletionItem>) -> Seq<ItemV> {
    Seq::new(v.len(), |i: int| v[i]@)
}

/// An item that has a label and a kind and nothing else.
pub open spec fn plain_item(label: Seq<char>, kind: ItemKind) -> ItemV {
    ItemV {
        label,
        kind: Some(kind),
        detail: None,
        documentation: None,
        insert_text: None,
        insert_text_format: None,
        sort_text: None,
        filter_text: None,
        text_edit: None,
        preselect: false,
        deprecated: false,
    }
}

/// An item that inserts a text.
pub open spec fn insert_item(
    label: Seq<char>,
    kind: ItemKind,
    detail: Seq<char>,
    text: Seq<char>,
    format: InsertFormat,
) -> ItemV {
    ItemV {
        detail: Some(detail),
        insert_text: Some(text),
        insert_text_format: Some(format),
        ..plain_item(label, kind)
    }
}

impl CompletionItem {
    pub fn new(label: &str, kind: ItemKind) -> (r: CompletionItem)
        ensures
            r@ == plain_item(label@, kind),
    {
        CompletionItem {
            label: label.to_owned(),
            kind: Some(kind),
            detail: None,
            documentation: None,
            insert_text: None,
            insert_text_format: None,
            sort_text: None,
            filter_text: None,
            text_edit: None,
            preselect: false,
            deprecated: false,
        }
    }

    pub fn inserting(label: &str, kind: ItemKind, detail: String, text: String, format: InsertFormat) -> (r:
        CompletionItem)
        ensures
            r@ == insert_item(label@, kind, detail@, text@, format),
    {
        CompletionItem {
            label: label.to_owned(),
            kind: Some(kind),
            detail: Some(detail),
            documentation: None,
            insert_text: Some(text),
            insert_text_format: Some(format),
            sort_text: None,
            filter_text: None,
            text_edit: None,
            preselect: false,
            deprecated: false,
        }
    }

    pub fn with_sort(self, text: String) -> (r: CompletionItem)
        ensures
            r@ == (ItemV { sort_text: Some(text@), ..self@ }),
    {
        let mut item = self;
        item.sort_text = Some(text);
        item
    }

    pub fn with_documentation(self, text: Option<String>) -> (r: CompletionItem)
        ensures
            r@ == (ItemV { documentation: opt_view(text), ..self@ }),
    {
        let mut item = self;
        item.documentation = text;
        item
    }
}

/// The items of the second list behind those of the first.
pub fn append_items(out: &mut Vec<CompletionItem>, more: Vec<CompletionItem>)
    ensures
        items_view(final(out)@) == items_view(old(out)@) + items_view(more@),
{
    let mut added = more;
    out.append(&mut added);
    assert(items_view(out@) =~= items_view(old(out)@) + items_view(more@));
}

pub fn push_item(out: &mut Vec<CompletionItem>, item: CompletionItem)
    ensures
        items_view(final(out)@) == items_view(old(out)@).push(item@),
{
    out.push(item);
    assert(items_view(out@) =~= items_view(old(out)@).push(item@));
}

// ---------------------------------------------------------------------
// Order

/// What a list is ordered by.
#[derive(Debug, Clone, Copy, PartialEq, Eq, Structural)]
pub enum SortBy {
    Label,
    SortText,
}

pub open spec fn sort_key(by: SortBy, x: ItemV) -> Option<Seq<char>> {
    match by {
        SortBy::Label => Some(x.label),
        SortBy::SortText => x.sort_text,
    }
}

/// The order of optional texts: nothing stands before any text.
pub open spec fn opt_lt(a: Option<Seq<char>>, b: Option<Seq<char>>) -> bool {
    match (a, b) {
        (None, Some(_)) => true,
        (Some(a), Some(b)) => text_lt(a, b),
        _ => false,
    }
}

pub open spec fn item_before(by: SortBy, a: ItemV, b: ItemV) -> bool {
    opt_lt(sort_key(by, a), sort_key(by, b))
}

fn is_before(by: SortBy, a: &CompletionItem, b: &CompletionItem) -> (r: bool)
    ensures
        r == item_before(by, a@, b@),
{
    match by {
        SortBy::Label => str_lt(a.label.as_str(), b.label.as_str()),
        SortBy::SortText => match (&a.sort_text, &b.sort_text) {
            (None, Some(_)) => true,
            (Some(a), Some(b)) => str_lt(a.as_str(), b.as_str()),
            _ => false,
        },
    }
}

/// `x` put before all greater items of an ascending sequence.
pub open spec fn put_item(by: SortBy, s: Seq<ItemV>, x: ItemV) -> Seq<ItemV>
    decreases s.len(),
{
    if s.len() > 0 && item_before(by, x, s.last()) {
        put_item(by, s.drop_last(), x).push(s.last())
    } else {
        s.push(x)
    }
}

/// The items in ascending order; equal ones keep their order.
pub open spec fn sorted_items(by: SortBy, s: Seq<ItemV>) -> Seq<ItemV>
    decreases s.len(),
{
    if s.len() == 0 {
        s
    } else {
        put_item(by, sorted_items(by, s.drop_last()), s.last())
    }
}

pub open spec fn items_ascending(by: SortBy, s: Seq<ItemV>) -> bool {
    forall|i: int, j: int|
        #![trigger s[i], s[j]]
        0 <= i < j < s.len() ==> !item_before(by, s[j], s[i])
}

proof fn lemma_opt_lt(a: Option<Seq<char>>, b: Option<Seq<char>>, c: Option<Seq<char>>)
    ensures
        opt_lt(a, b) ==> !opt_lt(b, a),
        opt_lt(a, b) && opt_lt(b, c) ==> opt_lt(a, c),
        !opt_lt(b, a) && !opt_lt(c, b) ==> !opt_lt(c, a),
{
    if let (Some(x), Some(y)) = (a, b) {
        lemma_text_lt_total(x, y);
    }
    if let (Some(x), Some(y)) = (b, c) {
        lemma_text_lt_total(x, y);
    }
    if let (Some(x), Some(y)) = (a, c) {
        lemma_text_lt_total(x, y);
        lemma_text_lt_total(y, x);
    }
    if let (Some(x), Some(y), Some(z)) = (a, b, c) {
        if text_lt(x, y) && text_lt(y, z) {
            lemma_text_lt_transitive(x, y, z);
        }
    }
}

proof fn lemma_put_item(by: SortBy, s: Seq<ItemV>, x: ItemV)
    requires
        items_ascending(by, s),
    ensures
        items_ascending(by, put_item(by, s, x)),
        put_item(by, s, x).to_multiset() == s.to_multiset().insert(x),
        forall|j: int|
            0 <= j < put_item(by, s, x).len() ==> (#[trigger] put_item(by, s, x)[j]) == x
                || s.contains(put_item(by, s, x)[j]),
    decreases s.len(),
{
    broadcast use vstd::seq_lib::group_to_multiset_ensures;

    let full = put_item(by, s, x);
    if s.len() > 0 && item_before(by, x, s.last()) {
        let d = s.drop_last();
        lemma_put_item(by, d, x);
        let r = put_item(by, d, x);
        assert(s =~= d.push(s.last()));
        assert forall|j: int| 0 <= j < full.len() implies (#[trigger] full[j]) == x || s.contains(
            full[j],
        ) by {
            if j < r.len() {
                assert(full[j] == r[j]);
                if r[j] != x {
                    let k = choose|k: int| 0 <= k < d.len() && d[k] == r[j];
                    assert(s[k] == r[j]);
                }
            } else {
                assert(full[j] == s[s.len() - 1]);
            }
        }
        assert forall|i: int, j: int|
            #![trigger full[i], full[j]]
            0 <= i < j < full.len() implies !item_before(by, full[j], full[i]) by {
            if j < r.len() {
                assert(full[i] == r[i] && full[j] == r[j]);
            } else {
                assert(full[i] == r[i]);
                lemma_opt_lt(sort_key(by, x), sort_key(by, s.last()), None);
                if r[i] != x {
                    let k = choose|k: int| 0 <= k < d.len() && d[k] == r[i];
                    assert(s[k] == r[i]);
                    assert(!item_before(by, s[s.len() - 1], s[k]));
                }
            }
        }
    } else {
        assert forall|i: int, j: int|
            #![trigger full[i], full[j]]
            0 <= i < j < full.len() implies !item_before(by, full[j], full[i]) by {
            if j == s.len() {
                assert(full[i] == s[i]);
                if i < s.len() - 1 {
                    assert(!item_before(by, s[s.len() - 1], s[i]));
                    lemma_opt_lt(sort_key(by, s[i]), sort_key(by, s.last()), sort_key(by, x));
                }
            } else {
                assert(full[i] == s[i] && full[j] == s[j]);
            }
        }
        assert forall|j: int| 0 <= j < full.len() implies (#[trigger] full[j]) == x || s.contains(
            full[j],
        ) by {
            if j < s.len() {
                assert(full[j] == s[j]);
            }
        }
    }
}

/// Ordering a list of items neither adds nor loses one.
pub proof fn sorted_items_order(by: SortBy, s: Seq<ItemV>)
    ensures
        items_ascending(by, sorted_items(by, s)),
        sorted_items(by, s).to_multiset() == s.to_multiset(),
    decreases s.len(),
{
    broadcast use vstd::seq_lib::group_to_multiset_ensures;

    if s.len() > 0 {
        sorted_items_order(by, s.drop_last());
        lemma_put_item(by, sorted_items(by, s.drop_last()), s.last());
        assert(s =~= s.drop_last().push(s.last()));
    }
}

/// An ordered list offers what the list offers.
pub proof fn lemma_sorted_contains(by: SortBy, s: Seq<ItemV>, x: ItemV)
    ensures
        sorted_items(by, s).contains(x) <==> s.contains(x),
{
    broadcast use vstd::seq_lib::group_to_multiset_ensures;

    sorted_items_order(by, s);
    assert(sorted_items(by, s).to_multiset().count(x) == s.to_multiset().count(x));
}

proof fn lemma_put_item_at(by: SortBy, s: Seq<ItemV>, x: ItemV, k: int)
    requires
        0 <= k <= s.len(),
        forall|j: int| k <= j < s.len() ==> item_before(by, x, #[trigger] s[j]),
        k > 0 ==> !item_before(by, x, s[k - 1]),
    ensures
        put_item(by, s, x) == s.insert(k, x),
    decreases s.len(),
{
    if k < s.len() {
        lemma_put_item_at(by, s.drop_last(), x, k);
        assert(s.drop_last().insert(k, x).push(s.last()) =~= s.insert(k, x));
    } else {
        assert(s.push(x) =~= s.insert(k, x));
    }
}

impl CompletionItem {
    pub fn duplicate(&self) -> (r: CompletionItem)
        ensures
            r@ == self@,
    {
        CompletionItem {
            label: self.label.clone(),
            kind: self.kind,
            detail: copy_opt(&self.detail),
            documentation: copy_opt(&self.documentation),
            insert_text: copy_opt(&self.insert_text),
            insert_text_format: self.insert_text_format,
            sort_text: copy_opt(&self.sort_text),
            filter_text: copy_opt(&self.filter_text),
            text_edit: match &self.text_edit {
                Some(e) => Some(TextEdit { range: e.range, new_text: e.new_text.clone() }),
                None => None,
            },
            preselect: self.preselect,
            deprecated: self.deprecated,
        }
    }
}

/// The items in ascending order; equal ones keep their order.
pub fn sort_items(v: &Vec<CompletionItem>, by: SortBy) -> (r: Vec<CompletionItem>)
    ensures
        items_view(r@) == sorted_items(by, items_view(v@)),
{
    let ghost all = items_view(v@);
    let mut out: Vec<CompletionItem> = Vec::new();
    assert(items_view(out@) =~= sorted_items(by, all.take(0)));
    for i in 0..v.len()
        invariant
            all == items_view(v@),
            items_view(out@) == sorted_items(by, all.take(i as int)),
    {
        let ghost sorted = items_view(out@);
        let x = v[i].duplicate();
        let mut k: usize = out.len();
        while k > 0 && is_before(by, &x, &out[k - 1])
            invariant
                sorted == items_view(out@),
                k <= out@.len(),
                forall|j: int| k <= j < sorted.len() ==> item_before(by, x@, #[trigger] sorted[j]),
            ensures
                k <= out@.len(),
                forall|j: int| k <= j < sorted.len() ==> item_before(by, x@, #[trigger] sorted[j]),
                k > 0 ==> !item_before(by, x@, sorted[k - 1]),
            decreases k,
        {
            assert(sorted[k - 1] == out@[k - 1]@);
            k -= 1;
        }
        proof {
            lemma_put_item_at(by, sorted, x@, k as int);
            assert(all.take(i + 1).drop_last() =~= all.take(i as int));
            assert(all.take(i + 1).last() == v@[i as int]@);
        }
        out.insert(k, x);
        assert(items_view(out@) =~= sorted.insert(k as int, x@));
    }
    assert(all.take(v@.len() as int) =~= all);
    out
}

} // verus!
