//! Names of providers, of functions and of findings.

use crate::actions::{DiagnosticSeverity, DiagnosticV};
use crate::attr_ref_map::ref_rules;
use crate::completion_cursor::{closes_label, is_label_char, label_end};
use crate::completion_values::{
    cut, digits_end, entry_name, function_namespace, function_namespaces, last_local, last_source,
    local_for, local_of, qualified_parts, sibling_local, written_value,
};
use crate::git_ref::short_sha;
use crate::hcl::{key_text, Attribute, ExprKind, ObjectItem};
use crate::laws::common::{is_doc, lemma_doc};
use crate::laws::completion_names::has_label;
use crate::laws::rename::holds;
use crate::order::name_set_contains;
use crate::position::utf8_len;
use crate::providers::source_name;
use crate::quick_fixes::reports_template_file;
use crate::seqs::{
    filter_map, find_map, lemma_filter_map_contains, lemma_find_map_at, lemma_find_map_first,
};
use crate::state::{DocUri, StateStore};
use crate::text::{ends_with, find_char, find_from, occurs_at, starts_with};
use vstd::prelude::*;

verus! {

// ---------------------------------------------------------------------
// Local names

/// The local name of a provider is the key of its last entry.
pub proof fn providers_have_the_key_of_their_entry(entries: Seq<Attribute>, name: Seq<char>, i: int)
    requires
        0 <= i < entries.len(),
        entry_name(entries[i]) == name,
        forall|j: int| i < j < entries.len() ==> entry_name(#[trigger] entries[j]) != name,
    ensures
        last_local(entries, name) == Some(entries[i].key.text@),
    decreases entries.len(),
{
    if i < entries.len() - 1 {
        assert(entries.last() == entries[entries.len() - 1]);
        assert forall|j: int| i < j < entries.drop_last().len() implies entry_name(
            #[trigger] entries.drop_last()[j],
        ) != name by {
            assert(entries.drop_last()[j] == entries[j]);
        }
        providers_have_the_key_of_their_entry(entries.drop_last(), name, i);
    }
}

/// A provider without an entry has no local name.
pub proof fn undeclared_providers_have_no_key(entries: Seq<Attribute>, name: Seq<char>)
    requires
        forall|j: int| 0 <= j < entries.len() ==> entry_name(#[trigger] entries[j]) != name,
    ensures
        last_local(entries, name) is None,
    decreases entries.len(),
{
    if entries.len() > 0 {
        assert(entries.last() == entries[entries.len() - 1]);
        assert forall|j: int| 0 <= j < entries.drop_last().len() implies entry_name(
            #[trigger] entries.drop_last()[j],
        ) != name by {
            assert(entries.drop_last()[j] == entries[j]);
        }
        undeclared_providers_have_no_key(entries.drop_last(), name);
    }
}

/// An entry stands for the provider that its source names, or for the one of its
/// own name where it has no source.
pub proof fn entries_stand_for_their_source(a: Attribute, items: Seq<ObjectItem>, i: int, source: Seq<char>)
    requires
        a.value.kind matches ExprKind::Object(o) && o@ == items,
        0 <= i < items.len(),
        key_text(items[i].key) == Some("source"@),
        items[i].value.kind matches ExprKind::Str(s) && s@ == source,
        forall|j: int| i < j < items.len() ==> key_text((#[trigger] items[j]).key) != Some("source"@),
    ensures
        entry_name(a) == match source_name(source) {
            Some(n) => n,
            None => a.key.text@,
        },
{
    lemma_last_source(items, i, source);
}

proof fn lemma_last_source(items: Seq<ObjectItem>, i: int, source: Seq<char>)
    requires
        0 <= i < items.len(),
        key_text(items[i].key) == Some("source"@),
        items[i].value.kind matches ExprKind::Str(s) && s@ == source,
        forall|j: int| i < j < items.len() ==> key_text((#[trigger] items[j]).key) != Some("source"@),
    ensures
        last_source(items) == Some(source),
    decreases items.len(),
{
    if i < items.len() - 1 {
        assert(items.last() == items[items.len() - 1]);
        assert forall|j: int| i < j < items.drop_last().len() implies key_text(
            (#[trigger] items.drop_last()[j]).key,
        ) != Some("source"@) by {
            assert(items.drop_last()[j] == items[j]);
        }
        lemma_last_source(items.drop_last(), i, source);
    }
}

/// The document's own name for a provider comes first, then that of another
/// document of the module, then the provider's name.
pub proof fn own_names_come_first(state: StateStore, uri: DocUri, name: Seq<char>, k: int, i: int)
    requires
        is_doc(state, uri.text@, k),
        state.documents@[k].body is Some,
    ensures
        local_of(state.documents@[k].body->0, name) matches Some(l) ==> local_for(state, uri, name)
            == l,
        local_of(state.documents@[k].body->0, name) is None && 0 <= i < state.documents@.len()
            && state.documents@[i].uri.text@ != uri.text@ && uri.dir is Some
            && state.documents@[i].uri.dir is Some && state.documents@[i].uri.dir->0@
            == uri.dir->0@ && state.documents@[i].body is Some && local_of(
            state.documents@[i].body->0,
            name,
        ) is Some && (forall|j: int|
            0 <= j < i ==> sibling_local(uri, name)(#[trigger] state.documents@[j]) is None)
            ==> local_for(state, uri, name) == local_of(state.documents@[i].body->0, name)->0,
        local_of(state.documents@[k].body->0, name) is None && (forall|j: int|
            0 <= j < state.documents@.len() ==> sibling_local(uri, name)(
                #[trigger] state.documents@[j],
            ) is None) ==> local_for(state, uri, name) == name,
{
    lemma_doc(state, uri, k);
    let f = sibling_local(uri, name);
    if 0 <= i < state.documents@.len() && f(state.documents@[i]) is Some && (forall|j: int|
        0 <= j < i ==> f(#[trigger] state.documents@[j]) is None) {
        lemma_find_map_at(state.documents@, f, i);
    }
    if find_map(state.documents@, f) is Some {
        let j = lemma_find_map_first(state.documents@, f);
        assert(f(state.documents@[j]) is Some);
    }
}

/// Behind `provider::` the local names of the providers with functions are
/// offered, and no others.
pub proof fn providers_with_functions_are_offered(state: StateStore, uri: DocUri, label: Seq<char>)
    ensures
        has_label(function_namespaces(state, uri), label) <==> exists|i: int|
            0 <= i < state.functions@.len() && (qualified_parts(
                (#[trigger] state.functions@[i]).name@,
            ) matches Some(p) && local_for(state, uri, p.0) == label),
{
    let f = function_namespace(state, uri);
    let s = state.functions@;
    let u = filter_map(s, f);
    let names = crate::order::name_set(u);
    let v = function_namespaces(state, uri);
    name_set_contains(u, label);
    lemma_filter_map_contains(s, f, label);
    if has_label(v, label) {
        let i = choose|i: int| 0 <= i < v.len() && (#[trigger] v[i]).label == label;
        assert(names[i] == label);
        assert(names.contains(label));
        let j = choose|j: int| 0 <= j < s.len() && f(#[trigger] s[j]) == Some(label);
        assert(qualified_parts(s[j].name@) is Some);
    }
    if exists|i: int|
        0 <= i < s.len() && (qualified_parts((#[trigger] s[i]).name@) matches Some(p) && local_for(
            state,
            uri,
            p.0,
        ) == label) {
        let i = choose|i: int|
            0 <= i < s.len() && (qualified_parts((#[trigger] s[i]).name@) matches Some(p)
                && local_for(state, uri, p.0) == label);
        assert(f(s[i]) == Some(label));
        let j = choose|j: int| 0 <= j < names.len() && names[j] == label;
        assert(v[j].label == label);
    }
}

proof fn lemma_cut_at(a: Seq<char>, b: Seq<char>)
    requires
        !a.contains(':'),
    ensures
        find_from(a + "::"@ + b, "::"@, 0) == Some(a.len() as int),
{
    reveal_strlit("::");
    let s = a + "::"@ + b;
    assert(s.subrange(a.len() as int, 2int + a.len()) =~= "::"@);
    assert(s.take(a.len() as int) =~= a);
    lemma_no_earlier(s, a, 0);
}

proof fn lemma_no_earlier(s: Seq<char>, a: Seq<char>, from: int)
    requires
        0 <= from <= a.len(),
        a.len() + 2 <= s.len(),
        s.take(a.len() as int) == a,
        !a.contains(':'),
        occurs_at(s, "::"@, a.len() as int),
    ensures
        find_from(s, "::"@, from) == Some(a.len() as int),
    decreases a.len() - from,
{
    reveal_strlit("::");
    if from < a.len() {
        assert(s.take(a.len() as int)[from] == s[from]);
        assert(a.contains(a[from]));
        if occurs_at(s, "::"@, from) {
            assert(s.subrange(from, from + 2)[0] == ':');
        }
        lemma_no_earlier(s, a, from + 1);
    }
}

proof fn lemma_cut(a: Seq<char>, b: Seq<char>)
    requires
        !a.contains(':'),
    ensures
        cut(a + "::"@ + b) == Some((a, b)),
        cut(a) is None,
{
    reveal_strlit("::");
    let s = a + "::"@ + b;
    lemma_cut_at(a, b);
    assert(s.take(a.len() as int) =~= a);
    assert(s.skip(2int + a.len()) =~= b);
    crate::idents::lemma_find_from(a, "::"@, 0);
    if let Some(k) = find_from(a, "::"@, 0) {
        assert(a.subrange(k, k + 2)[0] == ':');
        assert(a[k] == ':');
    }
}

/// A name of four parts that starts with `provider` is the function of its third
/// part; one of another start is not qualified.
pub proof fn qualified_names_are_recognised(
    head: Seq<char>,
    namespace: Seq<char>,
    provider: Seq<char>,
    name: Seq<char>,
)
    requires
        !head.contains(':'),
        !namespace.contains(':'),
        !provider.contains(':'),
        !name.contains(':'),
    ensures
        qualified_parts(head + "::"@ + (namespace + "::"@ + (provider + "::"@ + name))) == if head
            == "provider"@ {
            Some((provider, name))
        } else {
            None
        },
        qualified_parts(name) is None,
{
    lemma_cut(head, namespace + "::"@ + (provider + "::"@ + name));
    lemma_cut(namespace, provider + "::"@ + name);
    lemma_cut(provider, name);
    lemma_cut(name, name);
}

// ---------------------------------------------------------------------
// Values

/// A text of digits is a number and is written bare; so is one with a point
/// between digits.
pub proof fn digits_are_numbers(a: Seq<char>, b: Seq<char>)
    requires
        a.len() > 0,
        forall|i: int| 0 <= i < a.len() ==> '0' <= #[trigger] a[i] <= '9',
        forall|i: int| 0 <= i < b.len() ==> '0' <= #[trigger] b[i] <= '9',
    ensures
        written_value(a) == a,
        written_value(a + seq!['.'] + b) == a + seq!['.'] + b,
        written_value(seq!['-'] + a) == seq!['-'] + a,
{
    lemma_digits(a, 0, a.len() as int);
    assert(a[0] != '-' && a[0] != '+');
    assert(a.skip(0) =~= a);
    let s = a + seq!['.'] + b;
    assert forall|i: int| 0 <= i < a.len() implies '0' <= #[trigger] s[i] <= '9' by {
        assert(s[i] == a[i]);
    }
    assert forall|i: int| a.len() + 1 <= i < s.len() implies '0' <= #[trigger] s[i] <= '9' by {
        assert(s[i] == b[i - a.len() - 1]);
    }
    lemma_digits(s, 0, a.len() as int);
    lemma_digits(s, 1int + a.len(), s.len() as int);
    assert(s[0] == a[0]);
    assert(s.skip(0) =~= s);
    let m = seq!['-'] + a;
    assert(m.skip(1) =~= a);
}

proof fn lemma_digits(s: Seq<char>, i: int, e: int)
    requires
        0 <= i <= e <= s.len(),
        forall|j: int| i <= j < e ==> '0' <= #[trigger] s[j] <= '9',
        e < s.len() ==> !crate::versions::is_digit(s[e]),
    ensures
        digits_end(s, i) == e,
    decreases e - i,
{
    if i < e {
        assert('0' <= s[i] <= '9');
        lemma_digits(s, i + 1, e);
    }
}

/// A text that starts with another letter than those of `inf` and `nan` is not a
/// number, and is written in quotes.
pub proof fn words_are_quoted(s: Seq<char>)
    requires
        s.len() > 0,
        'a' <= s[0] <= 'z',
        s[0] != 'i',
        s[0] != 'n',
    ensures
        written_value(s) == "\""@ + s + "\""@,
{
    reveal_strlit("inf");
    reveal_strlit("infinity");
    reveal_strlit("nan");
    assert(s.skip(0) =~= s);
    assert(digits_end(s, 0) == 0);
    let t = s;
    if crate::completion_values::is_word(t, "inf"@) {
        assert(crate::completion_values::same_letter(t[0], "inf"@[0]));
    }
    if crate::completion_values::is_word(t, "infinity"@) {
        assert(crate::completion_values::same_letter(t[0], "infinity"@[0]));
    }
    if crate::completion_values::is_word(t, "nan"@) {
        assert(crate::completion_values::same_letter(t[0], "nan"@[0]));
    }
}

// ---------------------------------------------------------------------
// Labels, commits, findings

/// A label is closed where a quote follows the rest of its name on the line.
pub proof fn quotes_close_labels(s: Seq<char>, e: int)
    requires
        0 <= e <= s.len(),
        forall|i: int| 0 <= i < e ==> is_label_char(#[trigger] s[i]) && s[i] != '\n',
        e < s.len() ==> !is_label_char(s[e]),
    ensures
        closes_label(s) <==> e < s.len() && s[e] == '"',
{
    crate::laws::basics::characters_are_found(s, '\n', 0);
    let line = match find_char(s, '\n', 0) {
        Some(k) => s.take(k),
        None => s,
    };
    if let Some(k) = find_char(s, '\n', 0) {
        if k < e {
            assert(s[k] != '\n');
        }
    }
    assert forall|i: int| 0 <= i < e implies is_label_char(#[trigger] line[i]) by {
        assert(line[i] == s[i]);
    }
    lemma_label(line, 0, e);
}

proof fn lemma_label(s: Seq<char>, i: int, e: int)
    requires
        0 <= i <= e <= s.len(),
        forall|j: int| i <= j < e ==> is_label_char(#[trigger] s[j]),
        e < s.len() ==> !is_label_char(s[e]),
    ensures
        label_end(s, i) == e,
    decreases e - i,
{
    if i < e {
        assert(is_label_char(s[i]));
        lemma_label(s, i + 1, e);
    }
}

/// What a title shows of a commit are its first twelve digits.
pub proof fn commits_are_cut_to_twelve_digits(sha: Seq<char>)
    requires
        forall|i: int| 0 <= i < sha.len() ==> (#[trigger] sha[i] as u32) < 0x80,
    ensures
        short_sha(sha) == if sha.len() <= 12 {
            sha
        } else {
            sha.take(12)
        },
{
    lemma_ascii(sha, 0);
    if sha.len() <= 12 {
        assert(sha.take(sha.len() as int) =~= sha);
    }
}

proof fn lemma_ascii(s: Seq<char>, k: int)
    requires
        forall|i: int| 0 <= i < s.len() ==> (#[trigger] s[i] as u32) < 0x80,
        0 <= k <= 12,
        k <= s.len(),
    ensures
        crate::position::char_at_byte_from(s, 12, k) == if s.len() <= 12 {
            s.len() as int
        } else {
            12
        },
    decreases 12 - k,
{
    if k < s.len() {
        lemma_ascii_len(s.take(k + 1));
        if k < 12 {
            lemma_ascii(s, k + 1);
        }
    }
}

proof fn lemma_ascii_len(s: Seq<char>)
    requires
        forall|i: int| 0 <= i < s.len() ==> (#[trigger] s[i] as u32) < 0x80,
    ensures
        utf8_len(s) == s.len(),
    decreases s.len(),
{
    if s.len() > 0 {
        lemma_ascii_len(s.drop_last());
        assert((s[s.len() - 1] as u32) < 0x80);
    }
}

/// The finding about `template_file` is known by its severity and its words,
/// whoever reports it.
pub proof fn template_findings_are_recognised(d: DiagnosticV)
    ensures
        reports_template_file(d) <==> d.severity == Some(DiagnosticSeverity::Warning) && holds(
            d.message,
            "`data \"template_file\"` is superseded by the built-in `templatefile()`"@,
        ),
{
    crate::laws::fixes::lemma_contains(
        d.message,
        "`data \"template_file\"` is superseded by the built-in `templatefile()`"@,
        0,
    );
}

// ---------------------------------------------------------------------
// References by attribute

/// An attribute is named after the type that it refers to: without `_id`, `_arn`
/// or `_name` it ends the name of the type, or is ended by it.
pub open spec fn named_after(attr: Seq<char>, target: Seq<char>) -> bool {
    exists|stem: Seq<char>| #[trigger]
        is_stem(attr, stem) && (ends_with(target, stem) || ends_with(stem, target.skip(4)))
}

pub open spec fn is_stem(attr: Seq<char>, stem: Seq<char>) -> bool {
    attr == stem || attr == stem + "_id"@ || attr == stem + "_arn"@ || attr == stem + "_name"@
}

proof fn lemma_alike(attr: Seq<char>, target: Seq<char>, stem: Seq<char>)
    requires
        is_stem(attr, stem),
        ends_with(target, stem) || ends_with(stem, target.skip(4)),
    ensures
        named_after(attr, target),
{
}

proof fn lemma_rules_a(i: int)
    requires
        0 <= i < 6,
        !refers_by_custom(ref_rules()[i].0),
    ensures
        named_after(ref_rules()[i].0, ref_rules()[i].2),
{
    reveal_strlit("_id");
    reveal_strlit("_arn");
    reveal_strlit("_name");
    if i == 0 {
        reveal_strlit("aws_security_group");
        reveal_strlit("security_group");
        reveal_strlit("security_group_id");
        assert("security_group_id"@ =~= "security_group"@ + "_id"@);
        assert("aws_security_group"@.subrange(4, 18) =~= "security_group"@);
        lemma_alike("security_group_id"@, "aws_security_group"@, "security_group"@);
    } else if i == 1 {
        reveal_strlit("aws_security_group");
        reveal_strlit("source_security_group");
        reveal_strlit("source_security_group_id");
        assert("source_security_group_id"@ =~= "source_security_group"@ + "_id"@);
        assert("source_security_group"@.subrange(7, 21) =~= "aws_security_group"@.skip(4));
        lemma_alike("source_security_group_id"@, "aws_security_group"@, "source_security_group"@);
    } else if i == 2 {
        reveal_strlit("aws_security_group");
        reveal_strlit("vpc_security_group");
        reveal_strlit("vpc_security_group_id");
        assert("vpc_security_group_id"@ =~= "vpc_security_group"@ + "_id"@);
        assert("vpc_security_group"@.subrange(4, 18) =~= "aws_security_group"@.skip(4));
        lemma_alike("vpc_security_group_id"@, "aws_security_group"@, "vpc_security_group"@);
    } else if i == 3 {
        reveal_strlit("aws_subnet");
        reveal_strlit("subnet");
        reveal_strlit("subnet_id");
        assert("subnet_id"@ =~= "subnet"@ + "_id"@);
        assert("aws_subnet"@.subrange(4, 10) =~= "subnet"@);
        lemma_alike("subnet_id"@, "aws_subnet"@, "subnet"@);
    } else if i == 4 {
        reveal_strlit("aws_vpc");
        reveal_strlit("vpc");
        reveal_strlit("vpc_id");
        assert("vpc_id"@ =~= "vpc"@ + "_id"@);
        assert("aws_vpc"@.subrange(4, 7) =~= "vpc"@);
        lemma_alike("vpc_id"@, "aws_vpc"@, "vpc"@);
    } else if i == 5 {
        reveal_strlit("aws_route_table");
        reveal_strlit("route_table");
        reveal_strlit("route_table_id");
        assert("route_table_id"@ =~= "route_table"@ + "_id"@);
        assert("aws_route_table"@.subrange(4, 15) =~= "route_table"@);
        lemma_alike("route_table_id"@, "aws_route_table"@, "route_table"@);
    }
}

proof fn lemma_rules_b(i: int)
    requires
        6 <= i < 13,
        !refers_by_custom(ref_rules()[i].0),
    ensures
        named_after(ref_rules()[i].0, ref_rules()[i].2),
{
    reveal_strlit("_id");
    reveal_strlit("_arn");
    reveal_strlit("_name");
    if i == 6 {
        reveal_strlit("aws_internet_gateway");
        reveal_strlit("internet_gateway");
        reveal_strlit("internet_gateway_id");
        assert("internet_gateway_id"@ =~= "internet_gateway"@ + "_id"@);
        assert("aws_internet_gateway"@.subrange(4, 20) =~= "internet_gateway"@);
        lemma_alike("internet_gateway_id"@, "aws_internet_gateway"@, "internet_gateway"@);
    } else if i == 7 {
        reveal_strlit("aws_internet_gateway");
        reveal_strlit("gateway");
        reveal_strlit("gateway_id");
        assert("gateway_id"@ =~= "gateway"@ + "_id"@);
        assert("aws_internet_gateway"@.subrange(13, 20) =~= "gateway"@);
        lemma_alike("gateway_id"@, "aws_internet_gateway"@, "gateway"@);
    } else if i == 8 {
        reveal_strlit("aws_nat_gateway");
        reveal_strlit("nat_gateway");
        reveal_strlit("nat_gateway_id");
        assert("nat_gateway_id"@ =~= "nat_gateway"@ + "_id"@);
        assert("aws_nat_gateway"@.subrange(4, 15) =~= "nat_gateway"@);
        lemma_alike("nat_gateway_id"@, "aws_nat_gateway"@, "nat_gateway"@);
    } else if i == 9 {
        reveal_strlit("aws_network_interface");
        reveal_strlit("network_interface");
        reveal_strlit("network_interface_id");
        assert("network_interface_id"@ =~= "network_interface"@ + "_id"@);
        assert("aws_network_interface"@.subrange(4, 21) =~= "network_interface"@);
        lemma_alike("network_interface_id"@, "aws_network_interface"@, "network_interface"@);
    } else if i == 10 {
        reveal_strlit("aws_eip");
        reveal_strlit("eip");
        reveal_strlit("eip_id");
        assert("eip_id"@ =~= "eip"@ + "_id"@);
        assert("aws_eip"@.subrange(4, 7) =~= "eip"@);
        lemma_alike("eip_id"@, "aws_eip"@, "eip"@);
    } else if i == 12 {
        reveal_strlit("aws_network_acl");
        reveal_strlit("network_acl");
        reveal_strlit("network_acl_id");
        assert("network_acl_id"@ =~= "network_acl"@ + "_id"@);
        assert("aws_network_acl"@.subrange(4, 15) =~= "network_acl"@);
        lemma_alike("network_acl_id"@, "aws_network_acl"@, "network_acl"@);
    }
}

proof fn lemma_rules_c(i: int)
    requires
        13 <= i < 19,
        !refers_by_custom(ref_rules()[i].0),
    ensures
        named_after(ref_rules()[i].0, ref_rules()[i].2),
{
    reveal_strlit("_id");
    reveal_strlit("_arn");
    reveal_strlit("_name");
    if i == 13 {
        reveal_strlit("aws_iam_role");
        reveal_strlit("role");
        reveal_strlit("role_arn");
        assert("role_arn"@ =~= "role"@ + "_arn"@);
        assert("aws_iam_role"@.subrange(8, 12) =~= "role"@);
        lemma_alike("role_arn"@, "aws_iam_role"@, "role"@);
    } else if i == 14 {
        reveal_strlit("aws_iam_role");
        reveal_strlit("role");
        assert("aws_iam_role"@.subrange(8, 12) =~= "role"@);
        lemma_alike("role"@, "aws_iam_role"@, "role"@);
    } else if i == 15 {
        reveal_strlit("aws_iam_policy");
        reveal_strlit("policy");
        reveal_strlit("policy_arn");
        assert("policy_arn"@ =~= "policy"@ + "_arn"@);
        assert("aws_iam_policy"@.subrange(8, 14) =~= "policy"@);
        lemma_alike("policy_arn"@, "aws_iam_policy"@, "policy"@);
    } else if i == 16 {
        reveal_strlit("aws_iam_instance_profile");
        reveal_strlit("instance_profile");
        reveal_strlit("instance_profile_arn");
        assert("instance_profile_arn"@ =~= "instance_profile"@ + "_arn"@);
        assert("aws_iam_instance_profile"@.subrange(8, 24) =~= "instance_profile"@);
        lemma_alike("instance_profile_arn"@, "aws_iam_instance_profile"@, "instance_profile"@);
    } else if i == 17 {
        reveal_strlit("aws_iam_instance_profile");
        reveal_strlit("iam_instance_profile");
        assert("aws_iam_instance_profile"@.subrange(4, 24) =~= "iam_instance_profile"@);
        lemma_alike("iam_instance_profile"@, "aws_iam_instance_profile"@, "iam_instance_profile"@);
    } else if i == 18 {
        reveal_strlit("aws_s3_bucket");
        reveal_strlit("bucket");
        assert("aws_s3_bucket"@.subrange(7, 13) =~= "bucket"@);
        lemma_alike("bucket"@, "aws_s3_bucket"@, "bucket"@);
    }
}

proof fn lemma_rules_d(i: int)
    requires
        19 <= i < 27,
        !refers_by_custom(ref_rules()[i].0),
    ensures
        named_after(ref_rules()[i].0, ref_rules()[i].2),
{
    reveal_strlit("_id");
    reveal_strlit("_arn");
    reveal_strlit("_name");
    if i == 19 {
        reveal_strlit("aws_lb_target_group");
        reveal_strlit("target_group");
        reveal_strlit("target_group_arn");
        assert("target_group_arn"@ =~= "target_group"@ + "_arn"@);
        assert("aws_lb_target_group"@.subrange(7, 19) =~= "target_group"@);
        lemma_alike("target_group_arn"@, "aws_lb_target_group"@, "target_group"@);
    } else if i == 21 {
        reveal_strlit("aws_instance");
        reveal_strlit("instance");
        reveal_strlit("instance_id");
        assert("instance_id"@ =~= "instance"@ + "_id"@);
        assert("aws_instance"@.subrange(4, 12) =~= "instance"@);
        lemma_alike("instance_id"@, "aws_instance"@, "instance"@);
    } else if i == 22 {
        reveal_strlit("ami");
        reveal_strlit("aws_ami");
        assert("aws_ami"@.subrange(4, 7) =~= "ami"@);
        lemma_alike("ami"@, "aws_ami"@, "ami"@);
    } else if i == 24 {
        reveal_strlit("aws_launch_template");
        reveal_strlit("launch_template");
        reveal_strlit("launch_template_id");
        assert("launch_template_id"@ =~= "launch_template"@ + "_id"@);
        assert("aws_launch_template"@.subrange(4, 19) =~= "launch_template"@);
        lemma_alike("launch_template_id"@, "aws_launch_template"@, "launch_template"@);
    } else if i == 25 {
        reveal_strlit("aws_placement_group");
        reveal_strlit("placement_group");
        assert("aws_placement_group"@.subrange(4, 19) =~= "placement_group"@);
        lemma_alike("placement_group"@, "aws_placement_group"@, "placement_group"@);
    } else if i == 26 {
        reveal_strlit("aws_kms_key");
        reveal_strlit("kms_key");
        reveal_strlit("kms_key_id");
        assert("kms_key_id"@ =~= "kms_key"@ + "_id"@);
        assert("aws_kms_key"@.subrange(4, 11) =~= "kms_key"@);
        lemma_alike("kms_key_id"@, "aws_kms_key"@, "kms_key"@);
    }
}

proof fn lemma_rules_e(i: int)
    requires
        27 <= i < 33,
        !refers_by_custom(ref_rules()[i].0),
    ensures
        named_after(ref_rules()[i].0, ref_rules()[i].2),
{
    reveal_strlit("_id");
    reveal_strlit("_arn");
    reveal_strlit("_name");
    if i == 27 {
        reveal_strlit("aws_kms_key");
        reveal_strlit("kms_key");
        reveal_strlit("kms_key_arn");
        assert("kms_key_arn"@ =~= "kms_key"@ + "_arn"@);
        assert("aws_kms_key"@.subrange(4, 11) =~= "kms_key"@);
        lemma_alike("kms_key_arn"@, "aws_kms_key"@, "kms_key"@);
    } else if i == 28 {
        reveal_strlit("aws_sns_topic");
        reveal_strlit("topic");
        reveal_strlit("topic_arn");
        assert("topic_arn"@ =~= "topic"@ + "_arn"@);
        assert("aws_sns_topic"@.subrange(8, 13) =~= "topic"@);
        lemma_alike("topic_arn"@, "aws_sns_topic"@, "topic"@);
    } else if i == 29 {
        reveal_strlit("aws_sqs_queue");
        reveal_strlit("queue");
        reveal_strlit("queue_arn");
        assert("queue_arn"@ =~= "queue"@ + "_arn"@);
        assert("aws_sqs_queue"@.subrange(8, 13) =~= "queue"@);
        lemma_alike("queue_arn"@, "aws_sqs_queue"@, "queue"@);
    } else if i == 30 {
        reveal_strlit("aws_cloudwatch_log_group");
        reveal_strlit("log_group");
        reveal_strlit("log_group_name");
        assert("log_group_name"@ =~= "log_group"@ + "_name"@);
        assert("aws_cloudwatch_log_group"@.subrange(15, 24) =~= "log_group"@);
        lemma_alike("log_group_name"@, "aws_cloudwatch_log_group"@, "log_group"@);
    } else if i == 31 {
        reveal_strlit("aws_lambda_function");
        reveal_strlit("function");
        reveal_strlit("function_name");
        assert("function_name"@ =~= "function"@ + "_name"@);
        assert("aws_lambda_function"@.subrange(11, 19) =~= "function"@);
        lemma_alike("function_name"@, "aws_lambda_function"@, "function"@);
    } else if i == 32 {
        reveal_strlit("aws_ecs_cluster");
        reveal_strlit("cluster");
        assert("aws_ecs_cluster"@.subrange(8, 15) =~= "cluster"@);
        lemma_alike("cluster"@, "aws_ecs_cluster"@, "cluster"@);
    }
}

proof fn lemma_rules_f(i: int)
    requires
        33 <= i < 38,
        !refers_by_custom(ref_rules()[i].0),
    ensures
        named_after(ref_rules()[i].0, ref_rules()[i].2),
{
    reveal_strlit("_id");
    reveal_strlit("_arn");
    reveal_strlit("_name");
    if i == 33 {
        reveal_strlit("aws_ecs_task_definition");
        reveal_strlit("task_definition");
        assert("aws_ecs_task_definition"@.subrange(8, 23) =~= "task_definition"@);
        lemma_alike("task_definition"@, "aws_ecs_task_definition"@, "task_definition"@);
    } else if i == 34 {
        reveal_strlit("aws_acm_certificate");
        reveal_strlit("certificate");
        reveal_strlit("certificate_arn");
        assert("certificate_arn"@ =~= "certificate"@ + "_arn"@);
        assert("aws_acm_certificate"@.subrange(8, 19) =~= "certificate"@);
        lemma_alike("certificate_arn"@, "aws_acm_certificate"@, "certificate"@);
    } else if i == 35 {
        reveal_strlit("aws_route53_zone");
        reveal_strlit("zone");
        reveal_strlit("zone_id");
        assert("zone_id"@ =~= "zone"@ + "_id"@);
        assert("aws_route53_zone"@.subrange(12, 16) =~= "zone"@);
        lemma_alike("zone_id"@, "aws_route53_zone"@, "zone"@);
    } else if i == 36 {
        reveal_strlit("aws_db_subnet_group");
        reveal_strlit("db_subnet_group");
        reveal_strlit("db_subnet_group_name");
        assert("db_subnet_group_name"@ =~= "db_subnet_group"@ + "_name"@);
        assert("aws_db_subnet_group"@.subrange(4, 19) =~= "db_subnet_group"@);
        lemma_alike("db_subnet_group_name"@, "aws_db_subnet_group"@, "db_subnet_group"@);
    } else if i == 37 {
        reveal_strlit("aws_db_parameter_group");
        reveal_strlit("parameter_group");
        reveal_strlit("parameter_group_name");
        assert("parameter_group_name"@ =~= "parameter_group"@ + "_name"@);
        assert("aws_db_parameter_group"@.subrange(7, 22) =~= "parameter_group"@);
        lemma_alike("parameter_group_name"@, "aws_db_parameter_group"@, "parameter_group"@);
    }
}

/// Three attributes are not: an address is allocated, a load balancer is an `lb`,
/// and a key is a pair.
pub open spec fn refers_by_custom(attr: Seq<char>) -> bool {
    attr == "allocation_id"@ || attr == "load_balancer_arn"@ || attr == "key_name"@
}

/// But for those three, an attribute refers to a type that it is named after; and
/// a rule for the resources of a prefix refers to a type of that prefix.
pub proof fn attributes_are_named_after_their_type(i: int)
    requires
        0 <= i < ref_rules().len(),
    ensures
        refers_by_custom(ref_rules()[i].0) || named_after(ref_rules()[i].0, ref_rules()[i].2),
        ref_rules()[i].1 matches Some(p) ==> starts_with(ref_rules()[i].2, p),
        starts_with(ref_rules()[i].2, "aws_"@),
{
    if !refers_by_custom(ref_rules()[i].0) {
        if i < 6 {
            lemma_rules_a(i);
        } else if i < 13 {
            lemma_rules_b(i);
        } else if i < 19 {
            lemma_rules_c(i);
        } else if i < 27 {
            lemma_rules_d(i);
        } else if i < 33 {
            lemma_rules_e(i);
        } else {
            lemma_rules_f(i);
        }
    }
    if i == 14 {
        reveal_strlit("aws_iam_");
        reveal_strlit("aws_iam_role");
        assert("aws_iam_role"@.subrange(0, 8) =~= "aws_iam_"@);
    }
    if i == 18 {
        reveal_strlit("aws_s3_");
        reveal_strlit("aws_s3_bucket");
        assert("aws_s3_bucket"@.subrange(0, 7) =~= "aws_s3_"@);
    }
    if i == 31 {
        reveal_strlit("aws_lambda_");
        reveal_strlit("aws_lambda_function");
        assert("aws_lambda_function"@.subrange(0, 11) =~= "aws_lambda_"@);
    }
    if i == 32 {
        reveal_strlit("aws_ecs_");
        reveal_strlit("aws_ecs_cluster");
        assert("aws_ecs_cluster"@.subrange(0, 8) =~= "aws_ecs_"@);
    }
    if i == 37 {
        reveal_strlit("aws_db_");
        reveal_strlit("aws_db_parameter_group");
        assert("aws_db_parameter_group"@.subrange(0, 7) =~= "aws_db_"@);
    }
    lemma_aws(i);
}

proof fn lemma_aws(i: int)
    requires
        0 <= i < ref_rules().len(),
    ensures
        starts_with(ref_rules()[i].2, "aws_"@),
{
    let ty = ref_rules()[i].2;
    reveal_strlit("aws_");
    reveal_strlit("aws_acm_certificate");
    reveal_strlit("aws_ami");
    reveal_strlit("aws_cloudwatch_log_group");
    reveal_strlit("aws_db_parameter_group");
    reveal_strlit("aws_db_subnet_group");
    reveal_strlit("aws_ecs_cluster");
    reveal_strlit("aws_ecs_task_definition");
    reveal_strlit("aws_eip");
    reveal_strlit("aws_iam_instance_profile");
    reveal_strlit("aws_iam_policy");
    reveal_strlit("aws_iam_role");
    reveal_strlit("aws_instance");
    reveal_strlit("aws_internet_gateway");
    reveal_strlit("aws_key_pair");
    reveal_strlit("aws_kms_key");
    reveal_strlit("aws_lambda_function");
    reveal_strlit("aws_launch_template");
    reveal_strlit("aws_lb");
    reveal_strlit("aws_lb_target_group");
    reveal_strlit("aws_nat_gateway");
    reveal_strlit("aws_network_acl");
    reveal_strlit("aws_network_interface");
    reveal_strlit("aws_placement_group");
    reveal_strlit("aws_route53_zone");
    reveal_strlit("aws_route_table");
    reveal_strlit("aws_s3_bucket");
    reveal_strlit("aws_security_group");
    reveal_strlit("aws_sns_topic");
    reveal_strlit("aws_sqs_queue");
    reveal_strlit("aws_subnet");
    reveal_strlit("aws_vpc");
    assert(ty.subrange(0, 4) =~= "aws_"@);
}

} // verus!
