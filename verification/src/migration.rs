//! Applying source migrations: each change edits a span of a file's bytes
//! (adding a keyword before it, quoting it, commenting it out, ...). The
//! changes of a file are applied in the order of their spans, which must not
//! overlap.
use vstd::prelude::*;
use vstd::utf8::{
    decode_utf8, encode_utf8, is_char_boundary, is_char_boundary_iff_not_is_continuation_byte,
    is_char_boundary_start_end_of_seq, valid_utf8, valid_utf8_split,
};

use crate::diagnostics::{
    migrations_of, same_diagnostic, Diagnostic, DiagnosticInfo, Diagnostics, MIGRATION_CATEGORY,
};
use crate::source_files::{source_mapping, FileId, MappedFiles};

verus! {

/// A span of a file's bytes, from `start` up to `end`.
#[derive(Clone, Copy, Debug, PartialEq, Eq)]
pub struct ByteSpan {
    pub start: usize,
    pub end: usize,
}

/// A change that a migration makes at a span.
#[derive(Debug, PartialEq, Eq)]
pub enum MigrationChange {
    /// Write `mut ` before the span.
    AddMut,
    /// Write `public ` before the span.
    AddPublic,
    /// Replace the span by the name in backquotes.
    Backquote(String),
    /// Write `::` before the span.
    AddGlobalQual,
    /// Comment the span out.
    RemoveFriend,
    /// Replace the span by `public(package)`.
    MakePubPackage,
    /// Comment the span out.
    AddressRemove,
    /// Write the text before the span.
    AddressAdd(String),
}

/// A change with its span.
pub type SpannedChange = (ByteSpan, MigrationChange);

/// The bytes that a change puts at its span of `src`.
pub open spec fn inserted(src: Seq<u8>, span: ByteSpan, change: MigrationChange) -> Seq<u8> {
    match change {
        MigrationChange::AddMut => encode_utf8("mut "@),
        MigrationChange::AddPublic => encode_utf8("public "@),
        MigrationChange::Backquote(name) => encode_utf8("`"@) + encode_utf8(name@) + encode_utf8(
            "`"@,
        ),
        MigrationChange::AddGlobalQual => encode_utf8("::"@),
        MigrationChange::RemoveFriend => encode_utf8("/* "@) + src.subrange(
            span.start as int,
            span.end as int,
        ) + encode_utf8(" */"@),
        MigrationChange::MakePubPackage => encode_utf8("public(package)"@),
        MigrationChange::AddressRemove => encode_utf8("/* "@) + src.subrange(
            span.start as int,
            span.end as int,
        ) + encode_utf8(" */"@),
        MigrationChange::AddressAdd(text) => encode_utf8(text@),
    }
}

/// Where the source resumes after a change: at the span's start for a change
/// that only adds text, after the span for one that replaces it.
pub open spec fn resumes_at(span: ByteSpan, change: MigrationChange) -> int {
    match change {
        MigrationChange::AddMut => span.start as int,
        MigrationChange::AddPublic => span.start as int,
        MigrationChange::AddGlobalQual => span.start as int,
        MigrationChange::AddressAdd(_) => span.start as int,
        _ => span.end as int,
    }
}

/// `src` with the changes applied, the changes in the order of their spans.
#[verifier::opaque]
pub open spec fn rendered(src: Seq<u8>, changes: Seq<SpannedChange>) -> Seq<u8>
    decreases changes.len(),
{
    if changes.len() == 0 {
        src
    } else {
        let (span, change) = changes.last();
        rendered(src.take(span.start as int), changes.drop_last()) + inserted(src, span, change)
            + src.subrange(resumes_at(span, change), src.len() as int)
    }
}

/// `e` put into the changes `sorted` after every change that starts no later.
pub open spec fn insert_by_start(sorted: Seq<SpannedChange>, e: SpannedChange) -> Seq<SpannedChange>
    decreases sorted.len(),
{
    if sorted.len() == 0 {
        seq![e]
    } else if sorted.last().0.start <= e.0.start {
        sorted.push(e)
    } else {
        insert_by_start(sorted.drop_last(), e).push(sorted.last())
    }
}

/// The changes sorted by the start of their spans, changes that start
/// together kept in their order.
pub open spec fn sort_by_start(changes: Seq<SpannedChange>) -> Seq<SpannedChange>
    decreases changes.len(),
{
    if changes.len() == 0 {
        changes
    } else {
        insert_by_start(sort_by_start(changes.drop_last()), changes.last())
    }
}

/// The changes, in order, have well-formed spans that do not overlap and lie
/// in a source of `len` bytes.
pub open spec fn well_placed(changes: Seq<SpannedChange>, len: nat) -> bool {
    &&& forall|i: int| 0 <= i < changes.len() ==> (#[trigger] changes[i]).0.start <= changes[i].0.end
    &&& forall|i: int, j: int|
        0 <= i && j == i + 1 && j < changes.len() ==> (#[trigger] changes[i]).0.end
            <= (#[trigger] changes[j]).0.start
    &&& changes.len() > 0 ==> changes.last().0.end <= len
}

/// The position in the sorted `sorted` at which `e` goes.
proof fn lemma_insert_by_start_position(sorted: Seq<SpannedChange>, e: SpannedChange, k: int)
    requires
        0 <= k <= sorted.len(),
        forall|j: int| 0 <= j < k ==> (#[trigger] sorted[j]).0.start <= e.0.start,
        forall|j: int| k <= j < sorted.len() ==> (#[trigger] sorted[j]).0.start > e.0.start,
    ensures
        insert_by_start(sorted, e) == sorted.insert(k, e),
    decreases sorted.len(),
{
    if sorted.len() == 0 {
        assert(sorted.insert(k, e) =~= seq![e]);
    } else if sorted.last().0.start <= e.0.start {
        assert(k == sorted.len());
        assert(sorted.insert(k, e) =~= sorted.push(e));
    } else {
        let p = sorted.drop_last();
        lemma_insert_by_start_position(p, e, k);
        assert(p.insert(k, e).push(sorted.last()) =~= sorted.insert(k, e));
    }
}

/// The bytes of a string.
fn str_bytes(s: &str) -> (r: &[u8])
    ensures
        r@ == encode_utf8(s@),
{
    s.as_bytes()
}

/// Appends the bytes of a slice.
fn push_slice(out: &mut Vec<u8>, data: &[u8])
    ensures
        final(out)@ == old(out)@ + data@,
{
    let mut i: usize = 0;
    while i < data.len()
        invariant
            i <= data@.len(),
            out@ == old(out)@ + data@.take(i as int),
        decreases data@.len() - i,
    {
        out.push(data[i]);
        i = i + 1;
        assert(out@ =~= old(out)@ + data@.take(i as int));
    }
    assert(data@.take(data@.len() as int) =~= data@);
}

/// Appends the bytes `src[start..end]`.
fn push_range(out: &mut Vec<u8>, src: &[u8], start: usize, end: usize)
    requires
        start <= end <= src@.len(),
    ensures
        final(out)@ == old(out)@ + src@.subrange(start as int, end as int),
{
    let part = vstd::slice::slice_subrange(src, start, end);
    push_slice(out, part);
}

/// Appends what a change puts at its span of `src`.
fn push_inserted(out: &mut Vec<u8>, src: &[u8], span: ByteSpan, change: &MigrationChange)
    requires
        span.start <= span.end <= src@.len(),
    ensures
        final(out)@ == old(out)@ + inserted(src@, span, *change),
{
    match change {
        MigrationChange::AddMut => push_slice(out, str_bytes("mut ")),
        MigrationChange::AddPublic => push_slice(out, str_bytes("public ")),
        MigrationChange::Backquote(name) => {
            push_slice(out, str_bytes("`"));
            push_slice(out, str_bytes(name.as_str()));
            push_slice(out, str_bytes("`"));
            assert(out@ =~= old(out)@ + inserted(src@, span, *change));
        },
        MigrationChange::AddGlobalQual => push_slice(out, str_bytes("::")),
        MigrationChange::RemoveFriend | MigrationChange::AddressRemove => {
            push_slice(out, str_bytes("/* "));
            push_range(out, src, span.start, span.end);
            push_slice(out, str_bytes(" */"));
            assert(out@ =~= old(out)@ + inserted(src@, span, *change));
        },
        MigrationChange::MakePubPackage => push_slice(out, str_bytes("public(package)")),
        MigrationChange::AddressAdd(text) => push_slice(out, str_bytes(text.as_str())),
    }
}

/// Sorts the changes by the start of their spans; changes that start
/// together keep their order.
pub fn sort_changes_by_start(changes: &mut Vec<SpannedChange>)
    ensures
        final(changes)@ == sort_by_start(old(changes)@),
{
    let ghost orig = changes@;
    let mut input: Vec<SpannedChange> = Vec::new();
    std::mem::swap(changes, &mut input);
    let mut sorted: Vec<SpannedChange> = Vec::new();
    let ghost mut k: int = 0;
    while input.len() > 0
        invariant
            0 <= k <= orig.len(),
            input@ == orig.skip(k),
            sorted@ == sort_by_start(orig.take(k)),
            forall|i: int, j: int|
                0 <= i <= j < sorted@.len() ==> (#[trigger] sorted@[i]).0.start
                    <= (#[trigger] sorted@[j]).0.start,
        decreases input@.len(),
    {
        let e = input.remove(0);
        let mut pos: usize = sorted.len();
        while pos > 0 && sorted[pos - 1].0.start > e.0.start
            invariant
                pos <= sorted@.len(),
                forall|j: int| pos <= j < sorted@.len() ==> (#[trigger] sorted@[j]).0.start
                    > e.0.start,
            decreases pos,
        {
            pos = pos - 1;
        }
        proof {
            assert forall|j: int| 0 <= j < pos implies (#[trigger] sorted@[j]).0.start
                <= e.0.start by {
                if pos > 0 {
                    assert(sorted@[j].0.start <= sorted@[pos - 1].0.start);
                }
            }
            lemma_insert_by_start_position(sorted@, e, pos as int);
            assert(orig.take(k + 1).drop_last() =~= orig.take(k));
            assert(orig.take(k + 1).last() == e);
            k = k + 1;
            assert(input@ =~= orig.skip(k));
        }
        sorted.insert(pos, e);
        proof {
            assert forall|i: int, j: int|
                0 <= i <= j < sorted@.len() implies (#[trigger] sorted@[i]).0.start
                <= (#[trigger] sorted@[j]).0.start by {}
        }
    }
    proof {
        assert(orig.take(k) =~= orig);
    }
    *changes = sorted;
}

/// Where the source is cut before the change at `i`: the change's start, or
/// the end of the source after the last change.
pub open spec fn cut_before(cs: Seq<SpannedChange>, i: int, len: nat) -> int {
    if i < cs.len() {
        cs[i].0.start as int
    } else {
        len as int
    }
}

/// Applies the changes to the source: the changes are sorted by the start of
/// their spans (and left so), then each adds or replaces text at its span.
pub fn render_changes(source: &[u8], changes: &mut Vec<SpannedChange>) -> (r: Vec<u8>)
    requires
        well_placed(sort_by_start(old(changes)@), source@.len()),
    ensures
        final(changes)@ == sort_by_start(old(changes)@),
        r@ == rendered(source@, final(changes)@),
{
    sort_changes_by_start(changes);
    let cs = &*changes;
    let n = cs.len();
    let mut out: Vec<u8> = Vec::new();
    let first_start = if n == 0 {
        source.len()
    } else {
        cs[0].0.start
    };
    proof {
        if n > 0 {
            lemma_span_in_source(cs@, source@.len(), 0);
        }
    }
    push_range(&mut out, source, 0, first_start);
    proof {
        assert(source@.subrange(0, first_start as int) =~= source@.take(first_start as int));
        assert(cs@.take(0) =~= Seq::<SpannedChange>::empty());
        assert(rendered(source@.take(first_start as int), cs@.take(0)) == source@.take(
            first_start as int,
        )) by {
            reveal(rendered);
        }
    }
    let mut i: usize = 0;
    while i < n
        invariant
            cs == &*changes,
            n == cs@.len(),
            i <= n,
            well_placed(cs@, source@.len()),
            out@ == rendered(source@.take(cut_before(cs@, i as int, source@.len())), cs@.take(i as int)),
        decreases n - i,
    {
        let span = cs[i].0;
        let next = if i + 1 < n {
            cs[i + 1].0.start
        } else {
            source.len()
        };
        proof {
            lemma_span_in_source(cs@, source@.len(), i as int);
            if i + 1 < n {
                lemma_span_in_source(cs@, source@.len(), i + 1);
            }
        }
        push_inserted(&mut out, source, span, &cs[i].1);
        let resume = match &cs[i].1 {
            MigrationChange::AddMut
            | MigrationChange::AddPublic
            | MigrationChange::AddGlobalQual
            | MigrationChange::AddressAdd(_) => span.start,
            _ => span.end,
        };
        push_range(&mut out, source, resume, next);
        proof {
            lemma_render_step(source@, cs@, i as int);
            assert(resume == resumes_at(span, cs@[i as int].1));
        }
        i = i + 1;
    }
    proof {
        assert(source@.take(source@.len() as int) =~= source@);
        assert(cs@.take(n as int) =~= cs@);
    }
    out
}

/// A well-placed change lies in the source, and ends before the next starts.
proof fn lemma_span_in_source(cs: Seq<SpannedChange>, len: nat, i: int)
    requires
        well_placed(cs, len),
        0 <= i < cs.len(),
    ensures
        cs[i].0.start <= cs[i].0.end <= cut_before(cs, i + 1, len) <= len,
    decreases cs.len() - i,
{
    assert(cs[i].0.start <= cs[i].0.end);
    if i + 1 < cs.len() {
        assert(cs[i].0.end <= cs[i + 1].0.start);
        lemma_span_in_source(cs, len, i + 1);
    }
}

/// Applying one more change: the source up to the next cut is the source up
/// to this change's start, rendered, then the change, then the source from
/// where it resumes up to the next cut.
proof fn lemma_render_step(source: Seq<u8>, cs: Seq<SpannedChange>, i: int)
    requires
        well_placed(cs, source.len()),
        0 <= i < cs.len(),
    ensures
        rendered(source.take(cut_before(cs, i + 1, source.len())), cs.take(i + 1)) == rendered(
            source.take(cut_before(cs, i, source.len())),
            cs.take(i),
        ) + inserted(source, cs[i].0, cs[i].1) + source.subrange(
            resumes_at(cs[i].0, cs[i].1),
            cut_before(cs, i + 1, source.len()),
        ),
{
    reveal(rendered);
    lemma_span_in_source(cs, source.len(), i);
    let next = cut_before(cs, i + 1, source.len());
    let span = cs[i].0;
    let src2 = source.take(next);
    let c2 = cs.take(i + 1);
    assert(c2.drop_last() =~= cs.take(i));
    assert(c2.last() == cs[i]);
    assert(src2.take(span.start as int) =~= source.take(span.start as int));
    assert(inserted(src2, span, cs[i].1) =~= inserted(source, span, cs[i].1));
    assert(src2.subrange(resumes_at(span, cs[i].1), src2.len() as int) =~= source.subrange(
        resumes_at(span, cs[i].1),
        next,
    ));
}

/// The position of a change's kind in the order of the kinds.
pub open spec fn change_rank(c: MigrationChange) -> int {
    match c {
        MigrationChange::AddMut => 0,
        MigrationChange::AddPublic => 1,
        MigrationChange::Backquote(_) => 2,
        MigrationChange::AddGlobalQual => 3,
        MigrationChange::RemoveFriend => 4,
        MigrationChange::MakePubPackage => 5,
        MigrationChange::AddressRemove => 6,
        MigrationChange::AddressAdd(_) => 7,
    }
}

/// The bytes of the text that a change carries (none for most kinds).
pub open spec fn change_text(c: MigrationChange) -> Seq<u8> {
    match c {
        MigrationChange::Backquote(name) => encode_utf8(name@),
        MigrationChange::AddressAdd(text) => encode_utf8(text@),
        _ => Seq::empty(),
    }
}

/// What spanned changes are compared and told apart by: the span's start and
/// end, the kind, and the text.
pub open spec fn change_key(e: SpannedChange) -> (int, int, int, Seq<u8>) {
    (e.0.start as int, e.0.end as int, change_rank(e.1), change_text(e.1))
}

/// Lexicographic order of byte strings, a prefix first.
pub open spec fn bytes_lt(a: Seq<u8>, b: Seq<u8>) -> bool
    decreases a.len(),
{
    if a.len() == 0 {
        b.len() > 0
    } else if b.len() == 0 {
        false
    } else if a[0] != b[0] {
        a[0] < b[0]
    } else {
        bytes_lt(a.drop_first(), b.drop_first())
    }
}

/// Two changes have the same key.
pub open spec fn same_key(a: SpannedChange, b: SpannedChange) -> bool {
    change_key(a) == change_key(b)
}

/// The order of keys: by start, end, kind, then text.
pub open spec fn key_lt(a: (int, int, int, Seq<u8>), b: (int, int, int, Seq<u8>)) -> bool {
    ||| a.0 < b.0
    ||| a.0 == b.0 && a.1 < b.1
    ||| a.0 == b.0 && a.1 == b.1 && a.2 < b.2
    ||| a.0 == b.0 && a.1 == b.1 && a.2 == b.2 && bytes_lt(a.3, b.3)
}

/// No byte string is before itself.
proof fn lemma_bytes_lt_irreflexive(a: Seq<u8>)
    ensures
        !bytes_lt(a, a),
    decreases a.len(),
{
    if a.len() > 0 {
        lemma_bytes_lt_irreflexive(a.drop_first());
    }
}

/// The order of byte strings is transitive.
proof fn lemma_bytes_lt_transitive(a: Seq<u8>, b: Seq<u8>, c: Seq<u8>)
    ensures
        bytes_lt(a, b) && bytes_lt(b, c) ==> bytes_lt(a, c),
    decreases a.len(),
{
    if a.len() > 0 && b.len() > 0 && c.len() > 0 {
        lemma_bytes_lt_transitive(a.drop_first(), b.drop_first(), c.drop_first());
    }
}

/// Of two different byte strings, exactly one is before the other.
proof fn lemma_bytes_lt_total(a: Seq<u8>, b: Seq<u8>)
    ensures
        a != b ==> bytes_lt(a, b) || bytes_lt(b, a),
        bytes_lt(a, b) ==> !bytes_lt(b, a),
    decreases a.len(),
{
    if a.len() == 0 {
        if b.len() == 0 {
            assert(a =~= b);
        }
    } else if b.len() > 0 {
        lemma_bytes_lt_total(a.drop_first(), b.drop_first());
        if a[0] == b[0] && a.drop_first() == b.drop_first() {
            assert forall|i: int| 0 <= i < a.len() implies a[i] == b[i] by {
                if i > 0 {
                    assert(a[i] == a.drop_first()[i - 1]);
                    assert(b[i] == b.drop_first()[i - 1]);
                }
            }
            assert(a =~= b);
        }
    }
}

/// The order of byte strings is strict and total.
proof fn lemma_bytes_lt_order(a: Seq<u8>, b: Seq<u8>, c: Seq<u8>)
    ensures
        !bytes_lt(a, a),
        bytes_lt(a, b) && bytes_lt(b, c) ==> bytes_lt(a, c),
        a != b ==> bytes_lt(a, b) || bytes_lt(b, a),
        bytes_lt(a, b) ==> !bytes_lt(b, a),
{
    lemma_bytes_lt_irreflexive(a);
    lemma_bytes_lt_transitive(a, b, c);
    lemma_bytes_lt_total(a, b);
}

/// The order of keys is strict and total.
proof fn lemma_key_lt_order(a: (int, int, int, Seq<u8>), b: (int, int, int, Seq<u8>), c: (
    int,
    int,
    int,
    Seq<u8>,
))
    ensures
        !key_lt(a, a),
        key_lt(a, b) && key_lt(b, c) ==> key_lt(a, c),
        a != b ==> key_lt(a, b) || key_lt(b, a),
        key_lt(a, b) ==> !key_lt(b, a),
{
    lemma_bytes_lt_order(a.3, b.3, c.3);
}

/// The result of comparing two keys.
#[derive(Clone, Copy, Debug, PartialEq, Eq)]
pub enum KeyCmp {
    Less,
    Equal,
    Greater,
}

/// Compares byte strings in lexicographic order.
fn compare_bytes(a: &[u8], b: &[u8]) -> (r: KeyCmp)
    ensures
        r == KeyCmp::Less <==> bytes_lt(a@, b@),
        r == KeyCmp::Equal <==> a@ == b@,
        r == KeyCmp::Greater <==> bytes_lt(b@, a@),
{
    let mut i: usize = 0;
    assert(a@.skip(0) =~= a@);
    assert(b@.skip(0) =~= b@);
    assert(a@.take(0) =~= b@.take(0));
    while i < a.len() && i < b.len()
        invariant
            i <= a@.len(),
            i <= b@.len(),
            a@.take(i as int) == b@.take(i as int),
            bytes_lt(a@, b@) == bytes_lt(a@.skip(i as int), b@.skip(i as int)),
            bytes_lt(b@, a@) == bytes_lt(b@.skip(i as int), a@.skip(i as int)),
        decreases a@.len() - i,
    {
        proof {
            assert(a@.skip(i as int).drop_first() =~= a@.skip(i + 1));
            assert(b@.skip(i as int).drop_first() =~= b@.skip(i + 1));
        }
        if a[i] != b[i] {
            proof {
                lemma_bytes_lt_order(a@, b@, b@);
                if a@ == b@ {
                    assert(a@[i as int] == b@[i as int]);
                }
            }
            if a[i] < b[i] {
                return KeyCmp::Less;
            } else {
                return KeyCmp::Greater;
            }
        }
        i = i + 1;
        assert(a@.take(i as int) =~= b@.take(i as int)) by {
            assert(a@.take(i as int) =~= a@.take(i - 1).push(a@[i - 1]));
            assert(b@.take(i as int) =~= b@.take(i - 1).push(b@[i - 1]));
        }
    }
    proof {
        lemma_bytes_lt_order(a@, b@, b@);
        if a@.len() == b@.len() {
            assert(a@ =~= a@.take(i as int));
            assert(b@ =~= b@.take(i as int));
        } else if a@.len() < b@.len() {
            assert(a@.skip(i as int).len() == 0);
            assert(a@ != b@);
        } else {
            assert(b@.skip(i as int).len() == 0);
            assert(a@ != b@);
        }
    }
    if a.len() == b.len() {
        KeyCmp::Equal
    } else if a.len() < b.len() {
        KeyCmp::Less
    } else {
        KeyCmp::Greater
    }
}

/// The kind of a change, as its rank, and the bytes of its text.
fn rank_and_text(c: &MigrationChange) -> (r: (u8, &[u8]))
    ensures
        r.0 as int == change_rank(*c),
        r.1@ == change_text(*c),
{
    match c {
        MigrationChange::AddMut => (0, &[]),
        MigrationChange::AddPublic => (1, &[]),
        MigrationChange::Backquote(name) => (2, str_bytes(name.as_str())),
        MigrationChange::AddGlobalQual => (3, &[]),
        MigrationChange::RemoveFriend => (4, &[]),
        MigrationChange::MakePubPackage => (5, &[]),
        MigrationChange::AddressRemove => (6, &[]),
        MigrationChange::AddressAdd(text) => (7, str_bytes(text.as_str())),
    }
}

/// Compares two spanned changes by their keys.
fn compare_changes(a: &SpannedChange, b: &SpannedChange) -> (r: KeyCmp)
    ensures
        r == KeyCmp::Less <==> key_lt(change_key(*a), change_key(*b)),
        r == KeyCmp::Equal <==> same_key(*a, *b),
        r == KeyCmp::Greater <==> key_lt(change_key(*b), change_key(*a)),
{
    proof {
        lemma_key_lt_order(change_key(*a), change_key(*b), change_key(*b));
    }
    if a.0.start != b.0.start {
        return if a.0.start < b.0.start { KeyCmp::Less } else { KeyCmp::Greater };
    }
    if a.0.end != b.0.end {
        return if a.0.end < b.0.end { KeyCmp::Less } else { KeyCmp::Greater };
    }
    let (ra, ta) = rank_and_text(&a.1);
    let (rb, tb) = rank_and_text(&b.1);
    if ra != rb {
        return if ra < rb { KeyCmp::Less } else { KeyCmp::Greater };
    }
    compare_bytes(ta, tb)
}

/// The changes are in strictly increasing order of their keys.
pub open spec fn strictly_sorted(cs: Seq<SpannedChange>) -> bool {
    forall|i: int, j: int|
        0 <= i < j < cs.len() ==> key_lt(change_key(#[trigger] cs[i]), change_key(#[trigger] cs[j]))
}

/// Some change of `some` has the key of `e`.
pub open spec fn key_among(some: Seq<SpannedChange>, e: SpannedChange) -> bool {
    exists|i: int| 0 <= i < some.len() && same_key(#[trigger] some[i], e)
}

/// Every change of `all` has its key among those of `some`.
pub open spec fn keys_covered(some: Seq<SpannedChange>, all: Seq<SpannedChange>) -> bool {
    forall|j: int| 0 <= j < all.len() ==> key_among(some, #[trigger] all[j])
}

/// Two spanned changes are the same.
pub open spec fn same_change(a: SpannedChange, b: SpannedChange) -> bool {
    a == b
}

/// The change `e` is one of `all`.
pub open spec fn change_among(all: Seq<SpannedChange>, e: SpannedChange) -> bool {
    exists|j: int| 0 <= j < all.len() && same_change(e, #[trigger] all[j])
}

/// Every change of `some` is one of `all`.
pub open spec fn drawn_from(some: Seq<SpannedChange>, all: Seq<SpannedChange>) -> bool {
    forall|i: int| 0 <= i < some.len() ==> change_among(all, #[trigger] some[i])
}

/// `u` with `e` put in its place in the order of keys, unless a change with
/// its key is there already.
pub open spec fn insert_unique(u: Seq<SpannedChange>, e: SpannedChange) -> Seq<SpannedChange>
    decreases u.len(),
{
    if u.len() == 0 {
        seq![e]
    } else if key_lt(change_key(u.last()), change_key(e)) {
        u.push(e)
    } else if same_key(u.last(), e) {
        u
    } else {
        insert_unique(u.drop_last(), e).push(u.last())
    }
}

/// One change of each key, in the order of keys: the changes taken from the
/// last to the first, each kept unless one with its key was kept already.
pub open spec fn deduped(cs: Seq<SpannedChange>) -> Seq<SpannedChange>
    decreases cs.len(),
{
    if cs.len() == 0 {
        cs
    } else {
        insert_unique(deduped(cs.drop_first()), cs[0])
    }
}

/// In a sequence sorted by key, `e` goes where the keys before are smaller
/// and those after larger; or, where its key is there, nothing changes.
proof fn lemma_insert_unique_position(u: Seq<SpannedChange>, e: SpannedChange, pos: int)
    requires
        strictly_sorted(u),
        0 <= pos <= u.len(),
        forall|j: int| 0 <= j < pos ==> key_lt(change_key(#[trigger] u[j]), change_key(e)),
        pos < u.len() && same_key(u[pos], e) || forall|j: int|
            pos <= j < u.len() ==> key_lt(change_key(e), change_key(#[trigger] u[j])),
    ensures
        insert_unique(u, e) == (if pos < u.len() && same_key(u[pos], e) {
            u
        } else {
            u.insert(pos, e)
        }),
    decreases u.len(),
{
    lemma_key_lt_order(change_key(e), change_key(e), change_key(e));
    if u.len() == 0 {
        assert(u.insert(pos, e) =~= seq![e]);
    } else {
        let last = u.last();
        let n = u.len() - 1;
        lemma_key_lt_order(change_key(last), change_key(e), change_key(last));
        if pos == u.len() {
            assert(key_lt(change_key(u[n]), change_key(e)));
            assert(u.insert(pos, e) =~= u.push(e));
        } else if pos == n && same_key(u[pos], e) {
        } else {
            let p = u.drop_last();
            if pos < n && same_key(u[pos], e) {
                assert(key_lt(change_key(u[pos]), change_key(u[n])));
                assert(key_lt(change_key(e), change_key(last)));
            } else {
                assert(key_lt(change_key(e), change_key(u[n])));
            }
            assert(!key_lt(change_key(last), change_key(e)));
            assert(!same_key(last, e));
            assert(strictly_sorted(p)) by {
                assert forall|i: int, j: int| 0 <= i < j < p.len() implies key_lt(
                    change_key(#[trigger] p[i]),
                    change_key(#[trigger] p[j]),
                ) by {
                    assert(p[i] == u[i] && p[j] == u[j]);
                }
            }
            assert forall|j: int| 0 <= j < pos implies key_lt(change_key(#[trigger] p[j]), change_key(e)) by {
                assert(p[j] == u[j]);
            }
            if pos < n && same_key(u[pos], e) {
                assert(p[pos] == u[pos]);
                lemma_insert_unique_position(p, e, pos);
                assert(p.push(last) =~= u);
            } else {
                assert forall|j: int| pos <= j < p.len() implies key_lt(change_key(e), change_key(#[trigger] p[j])) by {
                    assert(p[j] == u[j]);
                }
                lemma_insert_unique_position(p, e, pos);
                assert(p.insert(pos, e).push(last) =~= u.insert(pos, e));
            }
        }
    }
}

/// Keeping one change of each key leaves a sequence sorted by key as it is.
proof fn lemma_deduped_sorted(u: Seq<SpannedChange>)
    requires
        strictly_sorted(u),
    ensures
        deduped(u) == u,
    decreases u.len(),
{
    if u.len() > 0 {
        let t = u.drop_first();
        assert(strictly_sorted(t)) by {
            assert forall|i: int, j: int| 0 <= i < j < t.len() implies key_lt(
                change_key(#[trigger] t[i]),
                change_key(#[trigger] t[j]),
            ) by {
                assert(t[i] == u[i + 1] && t[j] == u[j + 1]);
            }
        }
        lemma_deduped_sorted(t);
        assert forall|j: int| 0 <= j < t.len() implies key_lt(change_key(u[0]), change_key(#[trigger] t[j])) by {
            assert(t[j] == u[j + 1]);
        }
        if t.len() > 0 {
            lemma_key_lt_order(change_key(u[0]), change_key(t[0]), change_key(t[0]));
            assert(!same_key(t[0], u[0]));
        }
        lemma_insert_unique_position(t, u[0], 0);
        assert(t.insert(0, u[0]) =~= u);
    }
}

/// Sorting by start leaves a sequence sorted by key as it is.
proof fn lemma_sort_by_start_sorted(u: Seq<SpannedChange>)
    requires
        strictly_sorted(u),
    ensures
        sort_by_start(u) == u,
    decreases u.len(),
{
    if u.len() > 0 {
        let p = u.drop_last();
        assert(strictly_sorted(p)) by {
            assert forall|i: int, j: int| 0 <= i < j < p.len() implies key_lt(
                change_key(#[trigger] p[i]),
                change_key(#[trigger] p[j]),
            ) by {
                assert(p[i] == u[i] && p[j] == u[j]);
            }
        }
        lemma_sort_by_start_sorted(p);
        if p.len() > 0 {
            assert(key_lt(change_key(u[p.len() - 1]), change_key(u[u.len() - 1])));
        }
        assert(p.push(u.last()) =~= u);
    }
}

/// Keeps one of each change (by span, kind and text), in the order of the
/// keys.
pub fn ensure_unique_changes(changes: &mut Vec<SpannedChange>)
    ensures
        final(changes)@ == deduped(old(changes)@),
        strictly_sorted(final(changes)@),
        keys_covered(final(changes)@, old(changes)@),
        drawn_from(final(changes)@, old(changes)@),
{
    let ghost orig = changes@;
    let mut pending: Vec<SpannedChange> = Vec::new();
    std::mem::swap(changes, &mut pending);
    let mut unique: Vec<SpannedChange> = Vec::new();
    assert(orig.skip(orig.len() as int) =~= Seq::<SpannedChange>::empty());
    while pending.len() > 0
        invariant
            pending@.len() <= orig.len(),
            pending@ == orig.take(pending@.len() as int),
            forall|i: int, j: int|
                0 <= i < j < unique@.len() ==> key_lt(
                    change_key(#[trigger] unique@[i]),
                    change_key(#[trigger] unique@[j]),
                ),
            forall|j: int| pending@.len() <= j < orig.len() ==> key_among(unique@, #[trigger] orig[j]),
            drawn_from(unique@, orig),
            unique@ == deduped(orig.skip(pending@.len() as int)),
        decreases pending@.len(),
    {
        let ghost n = pending@.len() as int;
        let e = pending.pop().unwrap();
        proof {
            assert(e == orig[n - 1]);
            assert(pending@ =~= orig.take(n - 1));
            assert(orig.skip(n - 1).drop_first() =~= orig.skip(n));
            assert(orig.skip(n - 1)[0] == e);
            assert(deduped(orig.skip(n - 1)) == insert_unique(unique@, e));
        }
        let mut pos: usize = 0;
        let mut found = false;
        let mut passed = false;
        while pos < unique.len() && !found && !passed
            invariant
                pos <= unique@.len(),
                forall|i: int| 0 <= i < pos ==> key_lt(change_key(#[trigger] unique@[i]), change_key(e)),
                found ==> pos < unique@.len() && same_key(unique@[pos as int], e),
                passed ==> pos < unique@.len() && key_lt(change_key(e), change_key(unique@[pos as int])),
                !(found && passed),
            decreases unique@.len() - pos + if found || passed {
                0int
            } else {
                1int
            },
        {
            match compare_changes(&unique[pos], &e) {
                KeyCmp::Less => {
                    pos = pos + 1;
                },
                KeyCmp::Equal => {
                    found = true;
                },
                KeyCmp::Greater => {
                    passed = true;
                },
            }
        }
        if found {
            proof {
                assert(same_key(unique@[pos as int], orig[n - 1]));
                assert(key_among(unique@, orig[n - 1]));
                lemma_insert_unique_position(unique@, e, pos as int);
                assert(unique@ == deduped(orig.skip(n - 1)));
            }
        } else {
            proof {
                assert forall|i: int| pos <= i < unique@.len() implies key_lt(
                    change_key(e),
                    change_key(#[trigger] unique@[i]),
                ) by {
                    assert(passed);
                    if i > pos {
                        lemma_key_lt_order(change_key(e), change_key(unique@[pos as int]), change_key(unique@[i]));
                    }
                }
            }
            let ghost old_unique = unique@;
            proof {
                if pos < unique@.len() {
                    lemma_key_lt_order(change_key(e), change_key(unique@[pos as int]), change_key(e));
                }
                lemma_insert_unique_position(unique@, e, pos as int);
            }
            unique.insert(pos, e);
            proof {
                assert forall|i: int, j: int|
                    0 <= i < j < unique@.len() implies key_lt(
                    change_key(#[trigger] unique@[i]),
                    change_key(#[trigger] unique@[j]),
                ) by {
                    if i < pos && j > pos {
                        lemma_key_lt_order(change_key(unique@[i]), change_key(e), change_key(unique@[j]));
                    }
                }
                assert forall|j: int| n - 1 <= j < orig.len() implies key_among(
                    unique@,
                    #[trigger] orig[j],
                ) by {
                    if j == n - 1 {
                        assert(unique@[pos as int] == orig[j]);
                        assert(same_key(unique@[pos as int], orig[j]));
                    } else {
                        assert(key_among(old_unique, orig[j]));
                        let i0 = choose|i: int|
                            0 <= i < old_unique.len() && same_key(#[trigger] old_unique[i], orig[j]);
                        if i0 < pos {
                            assert(unique@[i0] == old_unique[i0]);
                            assert(same_key(unique@[i0], orig[j]));
                        } else {
                            assert(unique@[i0 + 1] == old_unique[i0]);
                            assert(same_key(unique@[i0 + 1], orig[j]));
                        }
                    }
                }
                assert forall|i: int| 0 <= i < unique@.len() implies change_among(
                    orig,
                    #[trigger] unique@[i],
                ) by {
                    if i == pos {
                        assert(unique@[i] == orig[n - 1]);
                        assert(same_change(unique@[i], orig[n - 1]));
                    } else if i < pos {
                        assert(unique@[i] == old_unique[i]);
                        assert(change_among(orig, old_unique[i]));
                    } else {
                        assert(unique@[i] == old_unique[i - 1]);
                        assert(change_among(orig, old_unique[i - 1]));
                    }
                }
            }
        }
    }
    proof {
        assert(pending@.len() == 0);
        assert(keys_covered(unique@, orig));
        assert(orig.skip(0) =~= orig);
    }
    *changes = unique;
}


/// The code of the diagnostic that asks for `let mut`.
pub const NEEDS_LET_MUT: u8 = 1;

/// The code of the diagnostic that asks for `public` before a struct.
pub const NEEDS_PUBLIC: u8 = 2;

/// The code of the diagnostic that asks for a name in backquotes.
pub const NEEDS_RESTRICTED_IDENTIFIER: u8 = 3;

/// The code of the diagnostic that asks for `::` before a path.
pub const NEEDS_GLOBAL_QUALIFICATION: u8 = 4;

/// The code of the diagnostic that removes a `friend` declaration.
pub const REMOVE_FRIEND: u8 = 5;

/// The code of the diagnostic that makes `public(friend)` `public(package)`.
pub const MAKE_PUB_PACKAGE: u8 = 6;

/// The code of the diagnostic that removes an address declaration.
pub const ADDRESS_REMOVE: u8 = 7;

/// The code of the diagnostic that inserts an address.
pub const ADDRESS_ADD: u8 = 8;

/// The diagnostic is one of the migration diagnostics.
pub open spec fn known_migration(info: DiagnosticInfo) -> bool {
    info.category == MIGRATION_CATEGORY && NEEDS_LET_MUT <= info.code <= ADDRESS_ADD
}

/// The key of the change that a migration diagnostic asks for: its span,
/// the kind (one less than the code) and the text (the label's message, for
/// a name in backquotes or an inserted address).
pub open spec fn diagnostic_key(d: Diagnostic) -> (int, int, int, Seq<u8>) {
    let (loc, msg) = d.spec_primary_label();
    let code = d.spec_info().code;
    (
        loc.start as int,
        loc.end as int,
        code - 1,
        if code == NEEDS_RESTRICTED_IDENTIFIER || code == ADDRESS_ADD {
            encode_utf8(msg)
        } else {
            Seq::empty()
        },
    )
}

/// The keys of the changes that the diagnostics ask for, by file, each file
/// in the order of the diagnostics.
pub open spec fn keys_by_file(
    mapping: Map<[u8; 32], FileId>,
    n: nat,
    diags: Seq<Diagnostic>,
) -> Seq<Seq<(int, int, int, Seq<u8>)>>
    decreases diags.len(),
{
    if diags.len() == 0 {
        Seq::new(n, |i: int| Seq::<(int, int, int, Seq<u8>)>::empty())
    } else {
        let prev = keys_by_file(mapping, n, diags.drop_last());
        let d = diags.last();
        let id = mapping[d.spec_primary_label().0.file_hash] as int;
        if 0 <= id < prev.len() {
            prev.update(id, prev[id].push(diagnostic_key(d)))
        } else {
            prev
        }
    }
}

/// The keys of a sequence of changes.
pub open spec fn keys_of(cs: Seq<SpannedChange>) -> Seq<(int, int, int, Seq<u8>)> {
    cs.map_values(|c: SpannedChange| change_key(c))
}

/// The source migrations of a compilation: its files, and the changes that
/// migration diagnostics ask for in each.
pub struct Migration {
    mapped_files: MappedFiles,
    changes: Vec<Vec<SpannedChange>>,
}

impl Migration {
    /// The files: each one's name and text.
    pub closed spec fn spec_files(&self) -> Seq<(Seq<char>, Seq<char>)> {
        self.mapped_files.spec_files()
    }

    /// The id of the file that each known hash stands for.
    pub closed spec fn spec_mapping(&self) -> Map<[u8; 32], FileId> {
        self.mapped_files.spec_mapping()
    }

    /// The changes asked for in each file, by id.
    pub closed spec fn spec_changes(&self) -> Seq<Seq<SpannedChange>> {
        self.changes@.map_values(|v: Vec<SpannedChange>| v@)
    }

    /// The inner consistency: a list of changes for each file.
    pub closed spec fn wf(&self) -> bool {
        &&& self.mapped_files.wf()
        &&& self.mapped_files.ids_in_range()
        &&& self.changes@.len() == self.spec_files().len()
    }

    /// The bytes of the text of a file.
    pub open spec fn file_bytes(&self, id: FileId) -> Seq<u8> {
        encode_utf8(self.spec_files()[id as int].1)
    }

    /// Records the change that a migration diagnostic asks for, in the file
    /// that its primary label's hash stands for.
    fn add_diagnostic(&mut self, diag: Diagnostic)
        requires
            old(self).wf(),
            known_migration(diag.spec_info()),
            old(self).spec_mapping().contains_key(diag.spec_primary_label().0.file_hash),
        ensures
            final(self).wf(),
            final(self).spec_files() == old(self).spec_files(),
            final(self).spec_mapping() == old(self).spec_mapping(),
            ({
                let id = old(self).spec_mapping()[diag.spec_primary_label().0.file_hash] as int;
                &&& final(self).spec_changes().len() == old(self).spec_changes().len()
                &&& forall|j: int|
                    0 <= j < old(self).spec_changes().len() && j != id
                        ==> #[trigger] final(self).spec_changes()[j] == old(self).spec_changes()[j]
                &&& final(self).spec_changes()[id].drop_last() == old(self).spec_changes()[id]
                &&& final(self).spec_changes()[id].len() == old(self).spec_changes()[id].len() + 1
                &&& change_key(final(self).spec_changes()[id].last()) == diagnostic_key(diag)
            }),
    {
        let span = self.mapped_files.byte_location(diag.primary_loc());
        let code = diag.info().code();
        let change = if code == NEEDS_LET_MUT {
            MigrationChange::AddMut
        } else if code == NEEDS_PUBLIC {
            MigrationChange::AddPublic
        } else if code == NEEDS_RESTRICTED_IDENTIFIER {
            MigrationChange::Backquote(String::from_str(diag.primary_msg()))
        } else if code == NEEDS_GLOBAL_QUALIFICATION {
            MigrationChange::AddGlobalQual
        } else if code == REMOVE_FRIEND {
            MigrationChange::RemoveFriend
        } else if code == MAKE_PUB_PACKAGE {
            MigrationChange::MakePubPackage
        } else if code == ADDRESS_REMOVE {
            MigrationChange::AddressRemove
        } else {
            MigrationChange::AddressAdd(String::from_str(diag.primary_msg()))
        };
        let id = span.file_id;
        let ghost before = self.spec_changes();
        let mut file_changes = self.changes.remove(id);
        file_changes.push((span.byte_span, change));
        self.changes.insert(id, file_changes);
        proof {
            assert(self.spec_changes() =~= before.update(id as int, before[id as int].push(
                (span.byte_span, change),
            )));
            assert(before[id as int].push((span.byte_span, change)).drop_last() =~= before[id as int]);
        }
    }

    /// The files, with their hashes, names and texts, and the changes that
    /// the migration diagnostics ask for in them; and the errors met on the
    /// way (none).
    pub fn new(sources: Vec<([u8; 32], String, String)>, diags: Vec<Diagnostic>) -> (r: (
        Migration,
        Diagnostics,
    ))
        requires
            forall|i: int|
                0 <= i < diags@.len() ==> known_migration((#[trigger] diags@[i]).spec_info())
                    && source_mapping(sources@).contains_key(
                    diags@[i].spec_primary_label().0.file_hash,
                ),
        ensures
            r.0.wf(),
            r.0.spec_files() == sources@.map_values(
                |f: ([u8; 32], String, String)| (f.1@, f.2@),
            ),
            r.0.spec_mapping() == source_mapping(sources@),
            r.0.spec_changes().len() == sources@.len(),
            forall|j: int|
                0 <= j < sources@.len() ==> keys_of(#[trigger] r.0.spec_changes()[j])
                    == keys_by_file(source_mapping(sources@), sources@.len(), diags@)[j],
            r.1.spec_diags() == Seq::<Diagnostic>::empty(),
            r.1.spec_filtered() == Seq::<Diagnostic>::empty(),
    {
        let ghost all_sources = sources@;
        let n = sources.len();
        let mapped_files = MappedFiles::new(sources);
        let mut changes: Vec<Vec<SpannedChange>> = Vec::new();
        let mut i: usize = 0;
        while i < n
            invariant
                i <= n,
                changes@.len() == i,
                forall|j: int| 0 <= j < i ==> (#[trigger] changes@[j])@.len() == 0,
            decreases n - i,
        {
            changes.push(Vec::new());
            i = i + 1;
        }
        let mut mig = Migration { mapped_files, changes };
        let migration_errors = Diagnostics::new();
        let ghost mapping = source_mapping(all_sources);
        let ghost all_diags = diags@;
        proof {
            assert forall|j: int| 0 <= j < n implies keys_of(#[trigger] mig.spec_changes()[j])
                == keys_by_file(mapping, n as nat, all_diags.take(0))[j] by {
                assert(keys_of(mig.spec_changes()[j]) =~= Seq::empty());
            }
        }
        let mut rest = diags;
        let mut k: usize = 0;
        let total = rest.len();
        while rest.len() > 0
            invariant
                mig.wf(),
                mig.spec_files() == all_sources.map_values(
                    |f: ([u8; 32], String, String)| (f.1@, f.2@),
                ),
                mig.spec_mapping() == mapping,
                mig.spec_changes().len() == n,
                n == all_sources.len(),
                total == all_diags.len(),
                k <= total,
                rest@ == all_diags.skip(k as int),
                forall|i: int|
                    0 <= i < all_diags.len() ==> known_migration((#[trigger] all_diags[i]).spec_info())
                        && mapping.contains_key(all_diags[i].spec_primary_label().0.file_hash),
                forall|j: int|
                    0 <= j < n ==> keys_of(#[trigger] mig.spec_changes()[j]) == keys_by_file(
                        mapping,
                        n as nat,
                        all_diags.take(k as int),
                    )[j],
            decreases rest@.len(),
        {
            let diag = rest.remove(0);
            proof {
                assert(diag == all_diags[k as int]);
                assert(rest@ =~= all_diags.skip(k + 1));
            }
            let ghost before = mig.spec_changes();
            mig.add_diagnostic(diag);
            proof {
                let id = mapping[diag.spec_primary_label().0.file_hash] as int;
                let pre = all_diags.take(k as int);
                let post = all_diags.take(k + 1);
                assert(post.drop_last() =~= pre);
                assert(post.last() == diag);
                lemma_keys_by_file_len(mapping, n as nat, pre);
                assert forall|j: int| 0 <= j < n implies keys_of(#[trigger] mig.spec_changes()[j])
                    == keys_by_file(mapping, n as nat, post)[j] by {
                    if j == id {
                        let now = mig.spec_changes()[j];
                        assert(now =~= before[j].push(now.last()));
                        assert(keys_of(now) =~= keys_of(before[j]).push(diagnostic_key(diag)));
                    } else {
                        assert(mig.spec_changes()[j] == before[j]);
                    }
                }
            }
            k = k + 1;
        }
        proof {
            assert(all_diags.take(k as int) =~= all_diags);
        }
        (mig, migration_errors)
    }
}

/// The changes are kept for as many files as there are.
proof fn lemma_keys_by_file_len(mapping: Map<[u8; 32], FileId>, n: nat, diags: Seq<Diagnostic>)
    ensures
        keys_by_file(mapping, n, diags).len() == n,
    decreases diags.len(),
{
    if diags.len() > 0 {
        lemma_keys_by_file_len(mapping, n, diags.drop_last());
    }
}


/// The changes, in order, lie well in the text, which is cut only at
/// character boundaries: at each change's start, and where the text resumes
/// after it.
pub open spec fn renderable(src: Seq<u8>, cs: Seq<SpannedChange>) -> bool {
    &&& well_placed(cs, src.len())
    &&& forall|i: int|
        0 <= i < cs.len() ==> is_char_boundary(src, (#[trigger] cs[i]).0.start as int)
            && is_char_boundary(src, resumes_at(cs[i].0, cs[i].1))
}

/// The text of `src` with the changes applied.
pub open spec fn migrated_text(src: Seq<u8>, cs: Seq<SpannedChange>) -> Seq<char> {
    decode_utf8(rendered(src, cs))
}

/// A prefix of a text up to a character boundary is a text, and keeps the
/// boundaries before.
proof fn lemma_boundary_in_prefix(bytes: Seq<u8>, j: int, p: int)
    requires
        valid_utf8(bytes),
        is_char_boundary(bytes, j),
        is_char_boundary(bytes, p),
        0 <= p <= j,
    ensures
        valid_utf8(bytes.take(j)),
        is_char_boundary(bytes.take(j), p),
{
    valid_utf8_split(bytes, j);
    assert(bytes.subrange(0, j) =~= bytes.take(j));
    let t = bytes.take(j);
    if p == j {
        is_char_boundary_start_end_of_seq(t);
    } else {
        is_char_boundary_iff_not_is_continuation_byte(bytes, p);
        is_char_boundary_iff_not_is_continuation_byte(t, p);
        assert(t[p] == bytes[p]);
    }
}

/// The part of a text between two character boundaries is a text.
proof fn lemma_valid_subrange(bytes: Seq<u8>, a: int, b: int)
    requires
        valid_utf8(bytes),
        is_char_boundary(bytes, a),
        is_char_boundary(bytes, b),
        0 <= a <= b,
    ensures
        valid_utf8(bytes.subrange(a, b)),
{
    lemma_boundary_in_prefix(bytes, b, a);
    let t = bytes.take(b);
    valid_utf8_split(t, a);
    assert(t.subrange(a, t.len() as int) =~= bytes.subrange(a, b));
}

/// Of well-placed changes, each ends before any later one starts.
proof fn lemma_spans_ordered(cs: Seq<SpannedChange>, len: nat, i: int, k: int)
    requires
        well_placed(cs, len),
        0 <= i < k < cs.len(),
    ensures
        cs[i].0.end <= cs[k].0.start,
    decreases k - i,
{
    if k > i + 1 {
        lemma_spans_ordered(cs, len, i + 1, k);
        assert(cs[i + 1].0.start <= cs[i + 1].0.end);
    }
    assert(cs[i].0.end <= cs[i + 1].0.start);
}

/// Applying changes that cut a text only at character boundaries gives a
/// text.
proof fn lemma_rendered_valid(src: Seq<u8>, cs: Seq<SpannedChange>)
    requires
        valid_utf8(src),
        renderable(src, cs),
    ensures
        valid_utf8(rendered(src, cs)),
    decreases cs.len(),
{
    broadcast use vstd::utf8::encode_utf8_valid_utf8, vstd::utf8::valid_utf8_concat;

    reveal(rendered);
    if cs.len() > 0 {
        let n = cs.len() - 1;
        let (span, change) = cs.last();
        assert(cs[n] == cs.last());
        let s = span.start as int;
        let r = resumes_at(span, change);
        lemma_span_in_source(cs, src.len(), n);
        assert(is_char_boundary(src, s) && is_char_boundary(src, r));
        lemma_boundary_in_prefix(src, s, s);
        let pre = src.take(s);
        let p = cs.drop_last();
        assert forall|i: int| 0 <= i < p.len() implies is_char_boundary(
            pre,
            (#[trigger] p[i]).0.start as int,
        ) && is_char_boundary(pre, resumes_at(p[i].0, p[i].1)) by {
            assert(p[i] == cs[i]);
            lemma_spans_ordered(cs, src.len(), i, n);
            assert(cs[i].0.start <= cs[i].0.end);
            lemma_boundary_in_prefix(src, s, cs[i].0.start as int);
            lemma_boundary_in_prefix(src, s, resumes_at(cs[i].0, cs[i].1));
        }
        assert(well_placed(p, pre.len())) by {
            assert forall|i: int| 0 <= i < p.len() implies (#[trigger] p[i]).0.start <= p[i].0.end by {
                assert(p[i] == cs[i]);
            }
            assert forall|i: int, j: int|
                0 <= i && j == i + 1 && j < p.len() implies (#[trigger] p[i]).0.end
                <= (#[trigger] p[j]).0.start by {
                assert(p[i] == cs[i] && p[j] == cs[j]);
            }
            if p.len() > 0 {
                lemma_spans_ordered(cs, src.len(), n - 1, n);
            }
        }
        lemma_rendered_valid(pre, p);
        valid_utf8_split(src, r);
        let ins = inserted(src, span, change);
        match change {
            MigrationChange::Backquote(name) => {
                let q = encode_utf8("`"@);
                vstd::utf8::valid_utf8_concat(q, encode_utf8(name@));
                vstd::utf8::valid_utf8_concat(q + encode_utf8(name@), q);
            },
            MigrationChange::RemoveFriend | MigrationChange::AddressRemove => {
                lemma_valid_subrange(src, s, span.end as int);
                let open_c = encode_utf8("/* "@);
                let sub = src.subrange(s, span.end as int);
                vstd::utf8::valid_utf8_concat(open_c, sub);
                vstd::utf8::valid_utf8_concat(open_c + sub, encode_utf8(" */"@));
            },
            _ => {},
        }
        assert(valid_utf8(ins));
        let left = rendered(pre, p);
        vstd::utf8::valid_utf8_concat(left, ins);
        vstd::utf8::valid_utf8_concat(left + ins, src.subrange(r, src.len() as int));
        assert(rendered(src, cs) == left + ins + src.subrange(r, src.len() as int));
    }
}

/// The bytes of a text, as a `String` when they are valid UTF-8
/// (`String::from_utf8`, which refuses any other bytes).
#[verifier::external_body]
fn string_from_utf8(bytes: Vec<u8>) -> (r: Option<String>)
    ensures
        r is Some <==> valid_utf8(bytes@),
        r matches Some(s) ==> encode_utf8(s@) == bytes@,
{
    String::from_utf8(bytes).ok()
}

/// The unified diff, with no lines of context, that `similar` writes of two
/// texts compared line by line, both sides headed by `name`.
pub uninterp spec fn unified_line_diff(original: Seq<char>, changed: Seq<char>, name: Seq<char>) -> Seq<
    char,
>;

/// `similar::TextDiff::from_lines(..).unified_diff()` with no context and
/// `name` for both headers, written out.
#[verifier::external_body]
fn unified_diff(original: &str, changed: &str, name: &str) -> (r: String)
    ensures
        r@ == unified_line_diff(original@, changed@, name@),
{
    similar::TextDiff::from_lines(original, changed).unified_diff().context_radius(0).header(
        name,
        name,
    ).to_string()
}

/// The ids of the files among the first `k` that have changes, in order.
pub open spec fn changed_ids(changes: Seq<Seq<SpannedChange>>, k: int) -> Seq<FileId>
    decreases k,
{
    if k <= 0 {
        Seq::empty()
    } else {
        let prev = changed_ids(changes, k - 1);
        if changes[k - 1].len() > 0 {
            prev.push((k - 1) as FileId)
        } else {
            prev
        }
    }
}

/// `id` put into `sorted` after every id whose name is not after its name.
pub open spec fn insert_by_name(sorted: Seq<FileId>, id: FileId, names: Seq<Seq<u8>>) -> Seq<
    FileId,
>
    decreases sorted.len(),
{
    if sorted.len() == 0 {
        seq![id]
    } else if !bytes_lt(names[id as int], names[sorted.last() as int]) {
        sorted.push(id)
    } else {
        insert_by_name(sorted.drop_last(), id, names).push(sorted.last())
    }
}

/// The ids sorted by the names of their files, ids of one name kept in their
/// order.
pub open spec fn sort_by_name(ids: Seq<FileId>, names: Seq<Seq<u8>>) -> Seq<FileId>
    decreases ids.len(),
{
    if ids.len() == 0 {
        ids
    } else {
        insert_by_name(sort_by_name(ids.drop_last(), names), ids.last(), names)
    }
}

/// The bytes of the names of files.
pub open spec fn name_bytes(files: Seq<(Seq<char>, Seq<char>)>) -> Seq<Seq<u8>> {
    files.map_values(|f: (Seq<char>, Seq<char>)| encode_utf8(f.0))
}

/// The diffs that the migration of the files in `order` makes, one after the
/// other.
pub open spec fn migration_diffs(
    files: Seq<(Seq<char>, Seq<char>)>,
    changes: Seq<Seq<SpannedChange>>,
    order: Seq<FileId>,
) -> Seq<char>
    decreases order.len(),
{
    if order.len() == 0 {
        Seq::empty()
    } else {
        let id = order.last() as int;
        migration_diffs(files, changes, order.drop_last()) + unified_line_diff(
            files[id].1,
            migrated_text(encode_utf8(files[id].1), deduped(changes[id])),
            files[id].0,
        )
    }
}

/// The position in the sorted `sorted` at which `id` goes.
proof fn lemma_insert_by_name_position(
    sorted: Seq<FileId>,
    id: FileId,
    names: Seq<Seq<u8>>,
    k: int,
)
    requires
        0 <= k <= sorted.len(),
        forall|j: int| 0 <= j < k ==> !bytes_lt(names[id as int], names[(#[trigger] sorted[j]) as int]),
        forall|j: int| k <= j < sorted.len() ==> bytes_lt(names[id as int], names[(#[trigger] sorted[j]) as int]),
    ensures
        insert_by_name(sorted, id, names) == sorted.insert(k, id),
    decreases sorted.len(),
{
    if sorted.len() == 0 {
        assert(sorted.insert(k, id) =~= seq![id]);
    } else if !bytes_lt(names[id as int], names[sorted.last() as int]) {
        assert(k == sorted.len());
        assert(sorted.insert(k, id) =~= sorted.push(id));
    } else {
        let p = sorted.drop_last();
        assert forall|j: int| 0 <= j < k implies !bytes_lt(names[id as int], names[(#[trigger] p[j]) as int]) by {
            assert(p[j] == sorted[j]);
        }
        assert forall|j: int| k <= j < p.len() implies bytes_lt(names[id as int], names[(#[trigger] p[j]) as int]) by {
            assert(p[j] == sorted[j]);
        }
        lemma_insert_by_name_position(p, id, names, k);
        assert(p.insert(k, id).push(sorted.last()) =~= sorted.insert(k, id));
    }
}

/// The name `a` is before the name `b`.
fn name_before(a: &str, b: &str) -> (r: bool)
    ensures
        r == bytes_lt(encode_utf8(a@), encode_utf8(b@)),
{
    match compare_bytes(str_bytes(a), str_bytes(b)) {
        KeyCmp::Less => true,
        _ => false,
    }
}

impl Migration {
    /// The files with changes, by name (files of one name by id).
    pub open spec fn render_order(&self) -> Seq<FileId> {
        sort_by_name(
            changed_ids(self.spec_changes(), self.spec_changes().len() as int),
            name_bytes(self.spec_files()),
        )
    }

    /// The changes of the files in `order` with one change kept of each
    /// key, the others as they were.
    pub open spec fn deduped_in(&self, order: Seq<FileId>) -> Seq<Seq<SpannedChange>> {
        Seq::new(
            self.spec_changes().len(),
            |j: int|
                if order.contains(j as FileId) {
                    deduped(self.spec_changes()[j])
                } else {
                    self.spec_changes()[j]
                },
        )
    }

    /// Each file's changes can be applied to its text.
    pub open spec fn all_renderable(&self) -> bool {
        forall|j: FileId|
            j < self.spec_files().len() ==> renderable(
                #[trigger] self.file_bytes(j),
                deduped(self.spec_changes()[j as int]),
            )
    }

    /// The files with changes and their names, by name.
    fn changed_files_by_name(&self) -> (r: Vec<(FileId, String)>)
        requires
            self.wf(),
        ensures
            r@.map_values(|p: (FileId, String)| p.0) == self.render_order(),
            forall|k: int|
                0 <= k < r@.len() ==> (#[trigger] r@[k]).0 < self.spec_files().len()
                    && r@[k].1@ == self.spec_files()[r@[k].0 as int].0,
    {
        let ghost names = name_bytes(self.spec_files());
        let ghost changes = self.spec_changes();
        let n = self.changes.len();
        let mut sorted: Vec<(FileId, String)> = Vec::new();
        let mut id: usize = 0;
        while id < n
            invariant
                self.wf(),
                n == self.changes@.len(),
                changes == self.spec_changes(),
                names == name_bytes(self.spec_files()),
                id <= n,
                sorted@.map_values(|p: (FileId, String)| p.0) == sort_by_name(
                    changed_ids(changes, id as int),
                    names,
                ),
                forall|k: int|
                    0 <= k < sorted@.len() ==> (#[trigger] sorted@[k]).0 < n && sorted@[k].1@
                        == self.spec_files()[sorted@[k].0 as int].0,
                forall|i: int, j: int|
                    0 <= i <= j < sorted@.len() ==> !bytes_lt(
                        names[(#[trigger] sorted@[j]).0 as int],
                        names[(#[trigger] sorted@[i]).0 as int],
                    ),
            decreases n - id,
        {
            let ghost ids = sorted@.map_values(|p: (FileId, String)| p.0);
            if self.changes[id].len() > 0 {
                let name = self.mapped_files.file_name(id);
                let mut pos: usize = sorted.len();
                while pos > 0 && name_before(name.as_str(), sorted[pos - 1].1.as_str())
                    invariant
                        self.wf(),
                        n == self.changes@.len(),
                        pos <= sorted@.len(),
                        names == name_bytes(self.spec_files()),
                        id < n,
                        name@ == self.spec_files()[id as int].0,
                        forall|k: int|
                            0 <= k < sorted@.len() ==> (#[trigger] sorted@[k]).0 < n
                                && sorted@[k].1@ == self.spec_files()[sorted@[k].0 as int].0,
                        forall|j: int|
                            pos <= j < sorted@.len() ==> bytes_lt(
                                names[id as int],
                                names[(#[trigger] sorted@[j]).0 as int],
                            ),
                    decreases pos,
                {
                    pos = pos - 1;
                }
                proof {
                    assert forall|j: int| 0 <= j < pos implies !bytes_lt(
                        names[id as int],
                        names[(#[trigger] sorted@[j]).0 as int],
                    ) by {
                        let last = sorted@[pos - 1].0 as int;
                        assert(!bytes_lt(names[id as int], names[last]));
                        assert(!bytes_lt(names[last], names[sorted@[j].0 as int]));
                        lemma_bytes_lt_order(names[id as int], names[last], names[sorted@[j].0 as int]);
                        lemma_bytes_lt_order(names[last], names[sorted@[j].0 as int], names[id as int]);
                        lemma_bytes_lt_order(names[id as int], names[sorted@[j].0 as int], names[last]);
                    }
                    assert forall|j: int| 0 <= j < pos implies !bytes_lt(
                        names[id as int],
                        names[(#[trigger] ids[j]) as int],
                    ) by {
                        assert(ids[j] == sorted@[j].0);
                    }
                    assert forall|j: int| pos <= j < ids.len() implies bytes_lt(
                        names[id as int],
                        names[(#[trigger] ids[j]) as int],
                    ) by {
                        assert(ids[j] == sorted@[j].0);
                    }
                    lemma_insert_by_name_position(ids, id, names, pos as int);
                }
                sorted.insert(pos, (id, name));
                proof {
                    assert(sorted@.map_values(|p: (FileId, String)| p.0) =~= ids.insert(pos as int, id));
                    assert(changed_ids(changes, id + 1) == changed_ids(changes, id as int).push(id));
                    let c = changed_ids(changes, id as int).push(id);
                    assert(c.drop_last() =~= changed_ids(changes, id as int));
                    assert forall|i: int, j: int|
                        0 <= i <= j < sorted@.len() implies !bytes_lt(
                        names[(#[trigger] sorted@[j]).0 as int],
                        names[(#[trigger] sorted@[i]).0 as int],
                    ) by {
                        let a = names[sorted@[i].0 as int];
                        let b = names[sorted@[j].0 as int];
                        lemma_bytes_lt_order(a, b, a);
                        if i < pos && j > pos {
                            lemma_bytes_lt_order(b, names[id as int], a);
                            lemma_bytes_lt_order(a, names[id as int], b);
                        }
                    }
                }
            } else {
                proof {
                    assert(changed_ids(changes, id + 1) == changed_ids(changes, id as int));
                }
            }
            id = id + 1;
        }
        sorted
    }

    /// Applies the changes of a file to its text, keeping one change of each
    /// key (which stay recorded so).
    fn migrate_file(&mut self, id: FileId) -> (r: String)
        requires
            old(self).wf(),
            id < old(self).spec_files().len(),
            renderable(old(self).file_bytes(id), deduped(old(self).spec_changes()[id as int])),
        ensures
            final(self).wf(),
            final(self).spec_files() == old(self).spec_files(),
            final(self).spec_mapping() == old(self).spec_mapping(),
            final(self).spec_changes() == old(self).spec_changes().update(
                id as int,
                deduped(old(self).spec_changes()[id as int]),
            ),
            deduped(final(self).spec_changes()[id as int]) == deduped(
                old(self).spec_changes()[id as int],
            ),
            r@ == migrated_text(old(self).file_bytes(id), deduped(old(self).spec_changes()[id as int])),
    {
        broadcast use vstd::utf8::encode_utf8_valid_utf8, vstd::utf8::encode_utf8_decode_utf8;

        let original = self.mapped_files.file_source(id);
        let ghost before = self.spec_changes();
        let mut file_changes = self.changes.remove(id);
        ensure_unique_changes(&mut file_changes);
        proof {
            lemma_sort_by_start_sorted(file_changes@);
            lemma_deduped_sorted(file_changes@);
        }
        let migrated = render_changes(str_bytes(original.as_str()), &mut file_changes);
        self.changes.insert(id, file_changes);
        proof {
            assert(self.spec_changes() =~= before.update(id as int, deduped(before[id as int])));
            lemma_rendered_valid(self.file_bytes(id), deduped(before[id as int]));
        }
        match string_from_utf8(migrated) {
            Some(text) => text,
            None => {
                proof {
                    assert(false);
                }
                String::new()
            },
        }
    }

    /// The diffs that the migration makes, file by file in the order of
    /// their names; each file's changes are kept one of each key.
    pub fn render_output(&mut self) -> (r: String)
        requires
            old(self).wf(),
            old(self).all_renderable(),
        ensures
            final(self).wf(),
            final(self).spec_files() == old(self).spec_files(),
            final(self).spec_mapping() == old(self).spec_mapping(),
            final(self).spec_changes() == old(self).deduped_in(old(self).render_order()),
            r@ == migration_diffs(
                old(self).spec_files(),
                old(self).spec_changes(),
                old(self).render_order(),
            ),
    {
        let ghost start = *self;
        let total = self.changes.len();
        let order = self.changed_files_by_name();
        let ghost ids = order@.map_values(|p: (FileId, String)| p.0);
        let mut output = String::new();
        let mut k: usize = 0;
        while k < order.len()
            invariant
                self.wf(),
                start.wf(),
                start.all_renderable(),
                total == start.spec_changes().len(),
                ids == start.render_order(),
                ids == order@.map_values(|p: (FileId, String)| p.0),
                k <= order@.len(),
                forall|i: int|
                    0 <= i < order@.len() ==> (#[trigger] order@[i]).0 < start.spec_files().len()
                        && order@[i].1@ == start.spec_files()[order@[i].0 as int].0,
                self.spec_files() == start.spec_files(),
                self.spec_mapping() == start.spec_mapping(),
                self.spec_changes() == start.deduped_in(ids.take(k as int)),
                forall|j: int|
                    0 <= j < start.spec_changes().len() ==> deduped(#[trigger] self.spec_changes()[j])
                        == deduped(start.spec_changes()[j]),
                output@ == migration_diffs(start.spec_files(), start.spec_changes(), ids.take(k as int)),
            decreases order@.len() - k,
        {
            let id = order[k].0;
            proof {
                assert(ids[k as int] == id);
                assert(renderable(start.file_bytes(id), deduped(start.spec_changes()[id as int])));
            }
            let original = self.mapped_files.file_source(id);
            let migrated = self.migrate_file(id);
            let diff = unified_diff(original.as_str(), migrated.as_str(), order[k].1.as_str());
            output.append(diff.as_str());
            proof {
                let next = ids.take(k + 1);
                assert(next.drop_last() =~= ids.take(k as int));
                assert(next.last() == id);
                assert(self.spec_changes() =~= start.deduped_in(next)) by {
                    assert forall|j: int| 0 <= j < start.spec_changes().len() implies self.spec_changes()[j]
                        == start.deduped_in(next)[j] by {
                        lemma_take_contains(ids, k as int, j as FileId);
                    }
                }
            }
            k = k + 1;
        }
        proof {
            assert(ids.take(k as int) =~= ids);
        }
        output
    }

    /// The name and the migrated text of each file with changes, by name;
    /// each file's changes are kept one of each key.
    pub fn migrated_sources(&mut self) -> (r: Vec<(String, String)>)
        requires
            old(self).wf(),
            old(self).all_renderable(),
        ensures
            final(self).wf(),
            final(self).spec_files() == old(self).spec_files(),
            final(self).spec_mapping() == old(self).spec_mapping(),
            final(self).spec_changes() == old(self).deduped_in(old(self).render_order()),
            r@.len() == old(self).render_order().len(),
            forall|k: int|
                0 <= k < r@.len() ==> {
                    let id = old(self).render_order()[k] as int;
                    &&& (#[trigger] r@[k]).0@ == old(self).spec_files()[id].0
                    &&& r@[k].1@ == migrated_text(
                        old(self).file_bytes(id as FileId),
                        deduped(old(self).spec_changes()[id]),
                    )
                },
    {
        let ghost start = *self;
        let total = self.changes.len();
        let order = self.changed_files_by_name();
        let ghost ids = order@.map_values(|p: (FileId, String)| p.0);
        let mut out: Vec<(String, String)> = Vec::new();
        let mut k: usize = 0;
        while k < order.len()
            invariant
                self.wf(),
                start.wf(),
                start.all_renderable(),
                total == start.spec_changes().len(),
                ids == start.render_order(),
                ids == order@.map_values(|p: (FileId, String)| p.0),
                k <= order@.len(),
                out@.len() == k,
                forall|i: int|
                    0 <= i < order@.len() ==> (#[trigger] order@[i]).0 < start.spec_files().len()
                        && order@[i].1@ == start.spec_files()[order@[i].0 as int].0,
                forall|i: int|
                    0 <= i < k ==> {
                        let id = ids[i] as int;
                        &&& (#[trigger] out@[i]).0@ == start.spec_files()[id].0
                        &&& out@[i].1@ == migrated_text(
                            start.file_bytes(id as FileId),
                            deduped(start.spec_changes()[id]),
                        )
                    },
                self.spec_files() == start.spec_files(),
                self.spec_mapping() == start.spec_mapping(),
                self.spec_changes() == start.deduped_in(ids.take(k as int)),
                forall|j: int|
                    0 <= j < start.spec_changes().len() ==> deduped(#[trigger] self.spec_changes()[j])
                        == deduped(start.spec_changes()[j]),
            decreases order@.len() - k,
        {
            let id = order[k].0;
            proof {
                assert(ids[k as int] == id);
                assert(renderable(start.file_bytes(id), deduped(start.spec_changes()[id as int])));
            }
            let migrated = self.migrate_file(id);
            let name = self.mapped_files.file_name(id);
            out.push((name, migrated));
            proof {
                let next = ids.take(k + 1);
                assert(self.spec_changes() =~= start.deduped_in(next)) by {
                    assert forall|j: int| 0 <= j < start.spec_changes().len() implies self.spec_changes()[j]
                        == start.deduped_in(next)[j] by {
                        lemma_take_contains(ids, k as int, j as FileId);
                    }
                }
            }
            k = k + 1;
        }
        proof {
            assert(ids.take(k as int) =~= ids);
        }
        out
    }
}


/// A prefix one longer holds what the shorter one holds, and the next id.
proof fn lemma_take_contains(ids: Seq<FileId>, k: int, x: FileId)
    requires
        0 <= k < ids.len(),
    ensures
        ids.take(k + 1).contains(x) <==> ids.take(k).contains(x) || x == ids[k],
{
    let next = ids.take(k + 1);
    if x == ids[k] {
        assert(next[k] == x);
    }
    if ids.take(k).contains(x) {
        let t = choose|t: int| 0 <= t < k && ids.take(k)[t] == x;
        assert(next[t] == x);
    }
    if next.contains(x) && x != ids[k] {
        let t = choose|t: int| 0 <= t < k + 1 && next[t] == x;
        assert(t < k);
        assert(ids.take(k)[t] == x);
    }
}


/// A copy of a change.
fn copy_change(c: &MigrationChange) -> (r: MigrationChange)
    ensures
        r == *c,
{
    match c {
        MigrationChange::AddMut => MigrationChange::AddMut,
        MigrationChange::AddPublic => MigrationChange::AddPublic,
        MigrationChange::Backquote(name) => MigrationChange::Backquote(name.clone()),
        MigrationChange::AddGlobalQual => MigrationChange::AddGlobalQual,
        MigrationChange::RemoveFriend => MigrationChange::RemoveFriend,
        MigrationChange::MakePubPackage => MigrationChange::MakePubPackage,
        MigrationChange::AddressRemove => MigrationChange::AddressRemove,
        MigrationChange::AddressAdd(text) => MigrationChange::AddressAdd(text.clone()),
    }
}

/// A copy of a sequence of changes.
fn copy_changes(cs: &Vec<SpannedChange>) -> (r: Vec<SpannedChange>)
    ensures
        r@ == cs@,
{
    let mut out: Vec<SpannedChange> = Vec::new();
    let mut i: usize = 0;
    while i < cs.len()
        invariant
            i <= cs@.len(),
            out@ == cs@.take(i as int),
        decreases cs@.len() - i,
    {
        out.push((cs[i].0, copy_change(&cs[i].1)));
        i = i + 1;
        assert(out@ =~= cs@.take(i as int));
    }
    assert(cs@.take(i as int) =~= cs@);
    out
}

/// Where the text resumes after a change.
fn resume_of(span: ByteSpan, change: &MigrationChange) -> (r: usize)
    ensures
        r as int == resumes_at(span, *change),
{
    match change {
        MigrationChange::AddMut
        | MigrationChange::AddPublic
        | MigrationChange::AddGlobalQual
        | MigrationChange::AddressAdd(_) => span.start,
        _ => span.end,
    }
}

/// The changes can be applied to the text.
fn changes_renderable(text: &str, cs: &Vec<SpannedChange>) -> (r: bool)
    ensures
        r == renderable(encode_utf8(text@), cs@),
{
    let len = str_bytes(text).len();
    let mut i: usize = 0;
    while i < cs.len()
        invariant
            i <= cs@.len(),
            len == encode_utf8(text@).len(),
            forall|k: int| 0 <= k < i ==> (#[trigger] cs@[k]).0.start <= cs@[k].0.end,
            forall|k: int, j: int|
                0 <= k && j == k + 1 && j < i ==> (#[trigger] cs@[k]).0.end
                    <= (#[trigger] cs@[j]).0.start,
            forall|k: int|
                0 <= k < i ==> is_char_boundary(encode_utf8(text@), (#[trigger] cs@[k]).0.start as int)
                    && is_char_boundary(encode_utf8(text@), resumes_at(cs@[k].0, cs@[k].1)),
        decreases cs@.len() - i,
    {
        let span = cs[i].0;
        if span.start > span.end {
            return false;
        }
        if i > 0 && cs[i - 1].0.end > span.start {
            return false;
        }
        if !text.is_char_boundary(span.start) || !text.is_char_boundary(resume_of(span, &cs[i].1)) {
            return false;
        }
        i = i + 1;
    }
    if cs.len() > 0 && cs[cs.len() - 1].0.end > len {
        return false;
    }
    true
}

impl Migration {
    /// Each file's changes, kept one of each key, can be applied to its
    /// text: they do not overlap, lie in the text, and cut it only at
    /// character boundaries.
    pub fn can_render(&self) -> (r: bool)
        requires
            self.wf(),
        ensures
            r == self.all_renderable(),
    {
        let n = self.changes.len();
        let mut id: usize = 0;
        while id < n
            invariant
                self.wf(),
                n == self.changes@.len(),
                id <= n,
                forall|j: FileId|
                    j < id ==> renderable(
                        #[trigger] self.file_bytes(j),
                        deduped(self.spec_changes()[j as int]),
                    ),
            decreases n - id,
        {
            let text = self.mapped_files.file_source(id);
            let mut cs = copy_changes(&self.changes[id]);
            ensure_unique_changes(&mut cs);
            let ok = changes_renderable(text.as_str(), &cs);
            proof {
                assert(self.spec_changes()[id as int] == self.changes@[id as int]@);
                assert(ok == renderable(self.file_bytes(id), deduped(self.spec_changes()[id as int])));
            }
            if !ok {
                return false;
            }
            id = id + 1;
        }
        true
    }
}


/// Where `e` goes in a sequence sorted by key: after the smaller keys, at
/// its own key if it is there, else before the larger ones.
proof fn lemma_insert_unique_find(u: Seq<SpannedChange>, e: SpannedChange) -> (pos: int)
    requires
        strictly_sorted(u),
    ensures
        0 <= pos <= u.len(),
        forall|j: int| 0 <= j < pos ==> key_lt(change_key(#[trigger] u[j]), change_key(e)),
        pos < u.len() && same_key(u[pos], e) || forall|j: int|
            pos <= j < u.len() ==> key_lt(change_key(e), change_key(#[trigger] u[j])),
    decreases u.len(),
{
    if u.len() == 0 {
        0
    } else {
        let n = u.len() - 1;
        let last = u[n];
        lemma_key_lt_order(change_key(last), change_key(e), change_key(last));
        if key_lt(change_key(last), change_key(e)) {
            assert forall|j: int| 0 <= j < u.len() implies key_lt(change_key(#[trigger] u[j]), change_key(e)) by {
                if j < n {
                    lemma_key_lt_order(change_key(u[j]), change_key(last), change_key(e));
                }
            }
            u.len() as int
        } else if same_key(last, e) {
            assert forall|j: int| 0 <= j < n implies key_lt(change_key(#[trigger] u[j]), change_key(e)) by {
                assert(key_lt(change_key(u[j]), change_key(last)));
            }
            n
        } else {
            let p = u.drop_last();
            assert(strictly_sorted(p)) by {
                assert forall|i: int, j: int| 0 <= i < j < p.len() implies key_lt(
                    change_key(#[trigger] p[i]),
                    change_key(#[trigger] p[j]),
                ) by {
                    assert(p[i] == u[i] && p[j] == u[j]);
                }
            }
            let pos = lemma_insert_unique_find(p, e);
            assert forall|j: int| 0 <= j < pos implies key_lt(change_key(#[trigger] u[j]), change_key(e)) by {
                assert(p[j] == u[j]);
            }
            if pos < p.len() && same_key(p[pos], e) {
                assert(u[pos] == p[pos]);
            } else {
                assert forall|j: int| pos <= j < u.len() implies key_lt(change_key(e), change_key(#[trigger] u[j])) by {
                    if j < n {
                        assert(p[j] == u[j]);
                    }
                }
            }
            pos
        }
    }
}

/// Keeping one change of each key gives changes in strictly increasing
/// order of keys.
proof fn lemma_deduped_strictly_sorted(cs: Seq<SpannedChange>)
    ensures
        strictly_sorted(deduped(cs)),
    decreases cs.len(),
{
    if cs.len() > 0 {
        let t = cs.drop_first();
        lemma_deduped_strictly_sorted(t);
        let u = deduped(t);
        let e = cs[0];
        let pos = lemma_insert_unique_find(u, e);
        lemma_insert_unique_position(u, e, pos);
        if !(pos < u.len() && same_key(u[pos], e)) {
            let v = u.insert(pos, e);
            assert forall|i: int, j: int| 0 <= i < j < v.len() implies key_lt(
                change_key(#[trigger] v[i]),
                change_key(#[trigger] v[j]),
            ) by {
                if j < pos {
                    assert(v[i] == u[i] && v[j] == u[j]);
                } else if j == pos {
                    assert(v[i] == u[i]);
                } else if i == pos {
                    assert(v[j] == u[j - 1]);
                } else if i < pos {
                    assert(v[i] == u[i] && v[j] == u[j - 1]);
                } else {
                    assert(v[i] == u[i - 1] && v[j] == u[j - 1]);
                }
            }
        }
    }
}

/// Keeping one change of each key gives changes in strictly increasing order
/// of keys, and doing it again changes nothing.
pub proof fn lemma_deduped_idempotent(cs: Seq<SpannedChange>)
    ensures
        strictly_sorted(deduped(cs)),
        deduped(deduped(cs)) == deduped(cs),
{
    lemma_deduped_strictly_sorted(cs);
    lemma_deduped_sorted(deduped(cs));
}


/// Diagnostics that say the same ask for the same changes.
proof fn lemma_keys_by_file_same(
    mapping: Map<[u8; 32], FileId>,
    n: nat,
    a: Seq<Diagnostic>,
    b: Seq<Diagnostic>,
)
    requires
        a.len() == b.len(),
        forall|i: int| 0 <= i < a.len() ==> same_diagnostic(#[trigger] a[i], b[i]),
    ensures
        keys_by_file(mapping, n, a) == keys_by_file(mapping, n, b),
    decreases a.len(),
{
    if a.len() > 0 {
        let (pa, pb) = (a.drop_last(), b.drop_last());
        assert forall|i: int| 0 <= i < pa.len() implies same_diagnostic(#[trigger] pa[i], pb[i]) by {
            assert(pa[i] == a[i] && pb[i] == b[i]);
        }
        lemma_keys_by_file_same(mapping, n, pa, pb);
        assert(same_diagnostic(a[a.len() - 1], b[b.len() - 1]));
    }
}

/// A copy of the files of a compilation.
fn copy_sources(files: &Vec<([u8; 32], String, String)>) -> (r: Vec<([u8; 32], String, String)>)
    ensures
        r@ == files@,
{
    let mut out: Vec<([u8; 32], String, String)> = Vec::new();
    let mut i: usize = 0;
    while i < files.len()
        invariant
            i <= files@.len(),
            out@ == files@.take(i as int),
        decreases files@.len() - i,
    {
        let f = &files[i];
        out.push((f.0, f.1.clone(), f.2.clone()));
        i = i + 1;
        assert(out@ =~= files@.take(i as int));
    }
    assert(files@.take(i as int) =~= files@);
    out
}

/// The migration that the migration diagnostics among `diags` ask for in
/// the files; `None` when there is no such diagnostic.
pub fn generate_migration_diff(
    files: &Vec<([u8; 32], String, String)>,
    diags: &Diagnostics,
) -> (r: Option<(Migration, Diagnostics)>)
    requires
        forall|i: int|
            0 <= i < migrations_of(diags.spec_diags()).len() ==> known_migration(
                (#[trigger] migrations_of(diags.spec_diags())[i]).spec_info(),
            ) && source_mapping(files@).contains_key(
                migrations_of(diags.spec_diags())[i].spec_primary_label().0.file_hash,
            ),
    ensures
        r is None <==> migrations_of(diags.spec_diags()).len() == 0,
        r matches Some(p) ==> {
            let (m, errors) = p;
            &&& m.wf()
            &&& m.spec_files() == files@.map_values(
                |f: ([u8; 32], String, String)| (f.1@, f.2@),
            )
            &&& m.spec_mapping() == source_mapping(files@)
            &&& m.spec_changes().len() == files@.len()
            &&& forall|j: int|
                0 <= j < files@.len() ==> keys_of(#[trigger] m.spec_changes()[j]) == keys_by_file(
                    source_mapping(files@),
                    files@.len(),
                    migrations_of(diags.spec_diags()),
                )[j]
            &&& errors.spec_diags() == Seq::<Diagnostic>::empty()
            &&& errors.spec_filtered() == Seq::<Diagnostic>::empty()
        },
{
    let migration_diags = diags.migration_diagnostics();
    if migration_diags.len() == 0 {
        return None;
    }
    let ghost wanted = migrations_of(diags.spec_diags());
    proof {
        assert forall|i: int| 0 <= i < migration_diags@.len() implies known_migration(
            (#[trigger] migration_diags@[i]).spec_info(),
        ) && source_mapping(files@).contains_key(
            migration_diags@[i].spec_primary_label().0.file_hash,
        ) by {
            assert(same_diagnostic(migration_diags@[i], wanted[i]));
        }
        lemma_keys_by_file_same(source_mapping(files@), files@.len(), migration_diags@, wanted);
    }
    Some(Migration::new(copy_sources(files), migration_diags))
}

} // verus!
