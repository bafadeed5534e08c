//! What happens when a document is opened or changed.
//!
//! A change of a document can make the findings in other documents of its
//! module stale. The names that a document declares and uses, and the text of
//! its `terraform` blocks, are all that can: where these stay the same the
//! other documents are left alone.

use crate::actions::{diagnostics_view, Diagnostic, DiagnosticV};
use crate::hcl::{block_pointees, blocks_named, list_blocks_named, Block};
use crate::order::{sort_texts, text_sort, text_sort_forgets_order};
use crate::position::{rope_between, rope_text, text_between, utf8_len};
use crate::seqs::{each, filter_map, lemma_filter_map_step, lemma_take_full};
use crate::state::{DocumentState, Reference, ReferenceKind, ResourceSymbol, Symbol};
use crate::text::{concat2, concat3, texts};
use vstd::prelude::*;

verus! {

// ---------------------------------------------------------------------
// Opening

/// What is published when a document is opened. There are these two choices
/// and no third: findings are either pushed, or pulled after the pushed ones
/// were cleared.
#[derive(Debug, Clone, Copy, PartialEq, Eq, Structural)]
pub enum DidOpenPublish {
    /// Clear what was pushed; the client pulls from then on.
    ClearPushNamespaceThenPull,
    /// Push the findings.
    PublishReal,
}

/// The server does not offer to be pulled from, so findings are pushed,
/// whatever the client supports.
pub fn did_open_publish_action(client_supports_pull: bool) -> (r: DidOpenPublish)
    ensures
        r == DidOpenPublish::PublishReal,
{
    DidOpenPublish::PublishReal
}

// ---------------------------------------------------------------------
// What other documents depend on

pub open spec fn symbol_token(prefix: Seq<char>) -> spec_fn(Symbol) -> Seq<char> {
    |s: Symbol| prefix + s.name@
}

pub open spec fn resource_token(prefix: Seq<char>) -> spec_fn(ResourceSymbol) -> Seq<char> {
    |s: ResourceSymbol| prefix + s.resource_type@ + "."@ + s.name@
}

pub open spec fn reference_token() -> spec_fn(Reference) -> Seq<char> {
    |r: Reference|
        match r.kind {
            ReferenceKind::Variable { name } => "ref:var."@ + name@,
            ReferenceKind::Local { name } => "ref:local."@ + name@,
            ReferenceKind::Module { name } => "ref:module."@ + name@,
            ReferenceKind::Resource { resource_type, name } => "ref:"@ + resource_type@ + "."@
                + name@,
            ReferenceKind::DataSource { resource_type, name } => "ref:data."@ + resource_type@
                + "."@ + name@,
        }
}

pub open spec fn block_token(t: Seq<char>) -> spec_fn(Block) -> Option<Seq<char>> {
    |b: Block|
        match b.span {
            Some(s) => if s.start <= s.end && s.end <= utf8_len(t) {
                Some("tf:"@ + text_between(t, s.start as int, s.end as int))
            } else {
                None
            },
            None => None,
        }
}

/// Everything in a document that can affect another: a token for each
/// definition, each reference and each `terraform` block.
pub open spec fn shared_tokens(doc: DocumentState) -> Seq<Seq<char>> {
    let s = doc.symbols;
    each(s.variables@, symbol_token("v:"@)) + each(s.locals@, symbol_token("l:"@)) + each(
        s.outputs@,
        symbol_token("o:"@),
    ) + each(s.modules@, symbol_token("m:"@)) + each(s.resources@, resource_token("r:"@)) + each(
        s.data_sources@,
        resource_token("d:"@),
    ) + each(doc.references@, reference_token()) + match doc.body {
        Some(body) => filter_map(
            blocks_named(body, "terraform"@),
            block_token(rope_text(doc.rope)),
        ),
        None => Seq::empty(),
    }
}

fn push_symbols(out: &mut Vec<String>, v: &Vec<Symbol>, prefix: &str)
    ensures
        texts(final(out)@) == texts(old(out)@) + each(v@, symbol_token(prefix@)),
{
    let ghost start = texts(out@);
    let ghost f = symbol_token(prefix@);
    assert(texts(out@) =~= start + each(v@.take(0), f));
    for i in 0..v.len()
        invariant
            f == symbol_token(prefix@),
            texts(out@) == start + each(v@.take(i as int), f),
    {
        let ghost before = texts(out@);
        let token = concat2(prefix, v[i].name.as_str());
        out.push(token);
        assert(texts(out@) =~= before.push(token@));
        assert(texts(out@) =~= start + each(v@.take(i + 1), f));
    }
    assert(v@.take(v@.len() as int) =~= v@);
}

fn push_resources(out: &mut Vec<String>, v: &Vec<ResourceSymbol>, prefix: &str)
    ensures
        texts(final(out)@) == texts(old(out)@) + each(v@, resource_token(prefix@)),
{
    let ghost start = texts(out@);
    let ghost f = resource_token(prefix@);
    assert(texts(out@) =~= start + each(v@.take(0), f));
    for i in 0..v.len()
        invariant
            f == resource_token(prefix@),
            texts(out@) == start + each(v@.take(i as int), f),
    {
        let ghost before = texts(out@);
        let mut token = concat3(prefix, v[i].resource_type.as_str(), ".");
        token.append(v[i].name.as_str());
        out.push(token);
        assert(texts(out@) =~= before.push(token@));
        assert(texts(out@) =~= start + each(v@.take(i + 1), f));
    }
    assert(v@.take(v@.len() as int) =~= v@);
}

fn token_of(r: &Reference) -> (t: String)
    ensures
        t@ == reference_token()(*r),
{
    match &r.kind {
        ReferenceKind::Variable { name } => concat2("ref:var.", name.as_str()),
        ReferenceKind::Local { name } => concat2("ref:local.", name.as_str()),
        ReferenceKind::Module { name } => concat2("ref:module.", name.as_str()),
        ReferenceKind::Resource { resource_type, name } => {
            let mut t = concat3("ref:", resource_type.as_str(), ".");
            t.append(name.as_str());
            t
        },
        ReferenceKind::DataSource { resource_type, name } => {
            let mut t = concat3("ref:data.", resource_type.as_str(), ".");
            t.append(name.as_str());
            t
        },
    }
}

fn push_references(out: &mut Vec<String>, v: &Vec<Reference>)
    ensures
        texts(final(out)@) == texts(old(out)@) + each(v@, reference_token()),
{
    let ghost start = texts(out@);
    let ghost f = reference_token();
    assert(texts(out@) =~= start + each(v@.take(0), f));
    for i in 0..v.len()
        invariant
            f == reference_token(),
            texts(out@) == start + each(v@.take(i as int), f),
    {
        let ghost before = texts(out@);
        let token = token_of(&v[i]);
        out.push(token);
        assert(texts(out@) =~= before.push(token@));
        assert(texts(out@) =~= start + each(v@.take(i + 1), f));
    }
    assert(v@.take(v@.len() as int) =~= v@);
}

fn push_blocks(out: &mut Vec<String>, doc: &DocumentState)
    ensures
        texts(final(out)@) == texts(old(out)@) + match doc.body {
            Some(body) => filter_map(
                blocks_named(body, "terraform"@),
                block_token(rope_text(doc.rope)),
            ),
            None => Seq::empty(),
        },
{
    let ghost start = texts(out@);
    match &doc.body {
        Some(body) => {
            let list = list_blocks_named(body, "terraform");
            let ghost s = blocks_named(*body, "terraform"@);
            let ghost f = block_token(rope_text(doc.rope));
            proof {
                lemma_take_full(s);
            }
            assert(texts(out@) =~= start + filter_map(s.take(0), f));
            for i in 0..list.len()
                invariant
                    block_pointees(list@) == s,
                    f == block_token(rope_text(doc.rope)),
                    texts(out@) == start + filter_map(s.take(i as int), f),
            {
                proof {
                    lemma_filter_map_step(s, f, i as int);
                    assert(s[i as int] == *list@[i as int]);
                }
                let ghost before = texts(out@);
                if let Some(span) = list[i].span {
                    if let Some(text) = rope_between(&doc.rope, span.start, span.end) {
                        let token = concat2("tf:", text.as_str());
                        out.push(token);
                        assert(texts(out@) =~= before.push(token@));
                    }
                }
                assert(texts(out@) =~= start + filter_map(s.take(i + 1), f));
            }
        },
        None => {
            assert(texts(out@) =~= start + Seq::<Seq<char>>::empty());
        },
    }
}

/// The tokens of a document in ascending order.
pub fn cross_file_tokens(doc: &DocumentState) -> (r: Vec<String>)
    ensures
        texts(r@) == text_sort(shared_tokens(*doc)),
{
    let mut out: Vec<String> = Vec::new();
    assert(texts(out@) =~= Seq::<Seq<char>>::empty());
    push_symbols(&mut out, &doc.symbols.variables, "v:");
    assert(texts(out@) =~= each(doc.symbols.variables@, symbol_token("v:"@)));
    push_symbols(&mut out, &doc.symbols.locals, "l:");
    push_symbols(&mut out, &doc.symbols.outputs, "o:");
    push_symbols(&mut out, &doc.symbols.modules, "m:");
    push_resources(&mut out, &doc.symbols.resources, "r:");
    push_resources(&mut out, &doc.symbols.data_sources, "d:");
    push_references(&mut out, &doc.references);
    push_blocks(&mut out, doc);
    sort_texts(out)
}

/// What a `rustc_hash::FxHasher` that was fed the texts finishes with, on a
/// machine with words of `word_bits` bits. `wide` says whether the machine is
/// one on which the hasher multiplies to 128 bits.
pub uninterp spec fn fx_hash_of(word_bits: int, wide: bool, tokens: Seq<Seq<char>>) -> u64;

/// The `finish` of a `rustc_hash::FxHasher` that was fed the texts. Besides the
/// texts, the value depends on the word size and on the kind of multiplication,
/// and on nothing else; which kind it is here is not said.
#[verifier::external_body]
fn fx_hash(tokens: &Vec<String>) -> (r: u64)
    ensures
        exists|wide: bool| r == #[trigger] fx_hash_of(usize::BITS as int, wide, texts(tokens@)),
{
    let mut h = rustc_hash::FxHasher::default();
    std::hash::Hash::hash_slice(tokens.as_slice(), &mut h);
    std::hash::Hasher::finish(&h)
}

/// A hash of everything in a document that can affect another, taken over
/// [`cross_file_tokens`]. What number it is depends on the machine.
pub fn cross_file_fingerprint(doc: &DocumentState) -> (r: u64)
    ensures
        exists|wide: bool|
            r == #[trigger] fx_hash_of(
                usize::BITS as int,
                wide,
                text_sort(shared_tokens(*doc)),
            ),
{
    fx_hash(&cross_file_tokens(doc))
}

// ---------------------------------------------------------------------
// Changing

/// How a change went in.
#[derive(Debug)]
pub enum ApplyOutcome {
    /// Applied; the document has this version now.
    Applied(i32),
    /// The document already has this version or a newer one.
    Stale,
    /// The change does not fit the document.
    Failed(String),
    /// The work was cut short.
    Aborted,
}

/// What is to be done after a change.
#[derive(Debug)]
pub struct ChangePlan {
    pub log_error: Option<String>,
    /// Publish the findings of the document itself under this version.
    pub publish_own: Option<i32>,
    /// Fetch missing version lists for the document.
    pub prefetch: Option<i32>,
    /// Publish the findings of the other open documents of the module.
    pub publish_peers: bool,
}

pub struct PlanV {
    pub log_error: Option<Seq<char>>,
    pub publish_own: Option<i32>,
    pub prefetch: Option<i32>,
    pub publish_peers: bool,
}

impl View for ChangePlan {
    type V = PlanV;

    open spec fn view(&self) -> PlanV {
        PlanV {
            log_error: crate::text::opt_view(self.log_error),
            publish_own: self.publish_own,
            prefetch: self.prefetch,
            publish_peers: self.publish_peers,
        }
    }
}

/// The fingerprint differs, or one of the two is not known.
pub open spec fn changed(before: Option<u64>, after: Option<u64>) -> bool {
    match (before, after) {
        (Some(a), Some(b)) => a != b,
        _ => true,
    }
}

pub open spec fn nothing(log_error: Option<Seq<char>>) -> PlanV {
    PlanV { log_error, publish_own: None, prefetch: None, publish_peers: false }
}

/// What follows a change: nothing where it was not applied. Where a newer one
/// has come in since, the document's own findings are left to that one; the
/// other documents are not, since it cannot see that this one changed what
/// they depend on.
pub open spec fn plan_of(
    outcome: ApplyOutcome,
    before: Option<u64>,
    after: Option<u64>,
    current: Option<i32>,
) -> PlanV {
    match outcome {
        ApplyOutcome::Applied(v) => {
            let superseded = current is Some && current != Some(v);
            PlanV {
                log_error: None,
                publish_own: if superseded {
                    None
                } else {
                    Some(v)
                },
                prefetch: if superseded {
                    None
                } else {
                    Some(v)
                },
                publish_peers: changed(before, after),
            }
        },
        ApplyOutcome::Stale => nothing(None),
        ApplyOutcome::Failed(e) => nothing(Some("edit apply failed: "@ + e@)),
        ApplyOutcome::Aborted => nothing(None),
    }
}

/// What follows a change. `before` and `after` are the fingerprints of the
/// document around it, `current` is the version it has now.
pub fn did_change(
    outcome: &ApplyOutcome,
    before: Option<u64>,
    after: Option<u64>,
    current: Option<i32>,
) -> (r: ChangePlan)
    ensures
        r@ == plan_of(*outcome, before, after, current),
{
    match outcome {
        ApplyOutcome::Applied(v) => {
            let changed = match (before, after) {
                (Some(a), Some(b)) => a != b,
                _ => true,
            };
            let superseded = match current {
                Some(c) => c != *v,
                None => false,
            };
            if superseded {
                ChangePlan {
                    log_error: None,
                    publish_own: None,
                    prefetch: None,
                    publish_peers: changed,
                }
            } else {
                ChangePlan {
                    log_error: None,
                    publish_own: Some(*v),
                    prefetch: Some(*v),
                    publish_peers: changed,
                }
            }
        },
        ApplyOutcome::Stale => ChangePlan {
            log_error: None,
            publish_own: None,
            prefetch: None,
            publish_peers: false,
        },
        ApplyOutcome::Failed(e) => ChangePlan {
            log_error: Some(concat2("edit apply failed: ", e.as_str())),
            publish_own: None,
            prefetch: None,
            publish_peers: false,
        },
        ApplyOutcome::Aborted => ChangePlan {
            log_error: None,
            publish_own: None,
            prefetch: None,
            publish_peers: false,
        },
    }
}

// ---------------------------------------------------------------------
// What is published

/// Findings that are sent to the client, and for which version of the document;
/// without a version the client takes them in any case.
#[derive(Debug)]
pub struct Publication {
    pub diagnostics: Vec<Diagnostic>,
    pub version: Option<i32>,
}

pub struct PublicationV {
    pub diagnostics: Seq<DiagnosticV>,
    pub version: Option<i32>,
}

impl View for Publication {
    type V = PublicationV;

    open spec fn view(&self) -> PublicationV {
        PublicationV { diagnostics: diagnostics_view(self.diagnostics@), version: self.version }
    }
}

/// No findings: what was sent before is cleared.
pub open spec fn cleared() -> PublicationV {
    PublicationV { diagnostics: Seq::empty(), version: None }
}

fn clear() -> (r: Publication)
    ensures
        r@ == cleared(),
{
    let r = Publication { diagnostics: Vec::new(), version: None };
    assert(r@.diagnostics =~= Seq::<DiagnosticV>::empty());
    r
}

/// What is published when a document is opened: its findings.
pub fn did_open(client_supports_pull: bool, found: Vec<Diagnostic>) -> (r: Publication)
    ensures
        r@ == (PublicationV { diagnostics: diagnostics_view(found@), version: None }),
{
    match did_open_publish_action(client_supports_pull) {
        DidOpenPublish::PublishReal => Publication { diagnostics: found, version: None },
        DidOpenPublish::ClearPushNamespaceThenPull => clear(),
    }
}

pub open spec fn opt_publication(p: Option<Publication>) -> Option<PublicationV> {
    match p {
        Some(p) => Some(p@),
        None => None,
    }
}

/// What is published for a document that was saved: its findings, unless the
/// client pulls those of open documents.
pub fn did_save(skip_push: bool, found: Vec<Diagnostic>) -> (r: Option<Publication>)
    ensures
        opt_publication(r) == if skip_push {
            None
        } else {
            Some(PublicationV { diagnostics: diagnostics_view(found@), version: None })
        },
{
    if skip_push {
        None
    } else {
        Some(Publication { diagnostics: found, version: None })
    }
}

/// What is published for a document that was closed.
pub fn did_close() -> (r: Publication)
    ensures
        r@ == cleared(),
{
    clear()
}

/// An applied change of what others depend on refreshes them, even when a
/// newer change has come in since.
pub proof fn shared_changes_reach_peers(v: i32, before: u64, after: u64, current: Option<i32>)
    requires
        before != after,
    ensures
        plan_of(ApplyOutcome::Applied(v), Some(before), Some(after), current).publish_peers,
{
}

/// Of two changes to one document only the newest publishes its findings.
pub proof fn superseded_changes_stay_silent(
    v: i32,
    before: Option<u64>,
    after: Option<u64>,
    current: i32,
)
    requires
        current != v,
    ensures
        plan_of(ApplyOutcome::Applied(v), before, after, Some(current)).publish_own is None,
{
}

/// Documents that declare and use the same things, in whatever order, have the
/// same tokens, and on any one machine the same hash.
pub proof fn order_of_declarations_has_no_part(a: DocumentState, b: DocumentState)
    requires
        shared_tokens(a).to_multiset() == shared_tokens(b).to_multiset(),
    ensures
        text_sort(shared_tokens(a)) == text_sort(shared_tokens(b)),
        forall|word_bits: int, wide: bool|
            #[trigger] fx_hash_of(word_bits, wide, text_sort(shared_tokens(a))) == fx_hash_of(
                word_bits,
                wide,
                text_sort(shared_tokens(b)),
            ),
{
    text_sort_forgets_order(shared_tokens(a), shared_tokens(b));
}

} // verus!
