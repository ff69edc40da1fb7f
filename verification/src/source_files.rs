//! The source files of a compilation, known by the hash of their contents:
//! from a location (a file hash and byte offsets) to the file, and to line
//! and column numbers in it.
use vstd::prelude::*;
use vstd::utf8::{encode_utf8, is_continuation_byte};

use codespan_reporting::files::{Files, SimpleFiles};

use crate::base_types::bytes32_eq;
use crate::diagnostics::Loc;
use crate::migration::ByteSpan;

verus! {

/// The index of a file among those added.
pub type FileId = usize;

#[verifier::external_type_specification]
#[verifier::external_body]
#[verifier::reject_recursive_types(Name)]
#[verifier::reject_recursive_types(Source)]
pub struct ExSimpleFiles<Name, Source>(SimpleFiles<Name, Source>);

/// The files that a `SimpleFiles` holds, in the order they were added: each
/// file's name and source text.
pub uninterp spec fn simple_files_contents(files: SimpleFiles<String, String>) -> Seq<
    (Seq<char>, Seq<char>),
>;

/// The number of line feeds in `bytes`.
pub open spec fn line_feeds(bytes: Seq<u8>) -> nat
    decreases bytes.len(),
{
    if bytes.len() == 0 {
        0
    } else {
        line_feeds(bytes.drop_last()) + if bytes.last() == 10 {
            1nat
        } else {
            0nat
        }
    }
}

/// Where the last line of `bytes` starts: just after the last line feed, or
/// at 0.
pub open spec fn last_line_start(bytes: Seq<u8>) -> int
    decreases bytes.len(),
{
    if bytes.len() == 0 {
        0
    } else if bytes.last() == 10 {
        bytes.len() as int
    } else {
        last_line_start(bytes.drop_last())
    }
}

/// The number of positions `j` in `from..to` after which a character of
/// `bytes` begins or the text ends (`j + 1` is a character boundary).
pub open spec fn boundaries_after(bytes: Seq<u8>, from: int, to: int) -> nat
    decreases to - from,
{
    if to <= from {
        0
    } else {
        boundaries_after(bytes, from, to - 1) + if to == bytes.len() || !is_continuation_byte(
            bytes[to],
        ) {
            1nat
        } else {
            0nat
        }
    }
}

/// The part of the text before a byte index (the whole text for an index
/// past its end).
pub open spec fn text_before(bytes: Seq<u8>, byte_index: int) -> Seq<u8> {
    if byte_index < bytes.len() {
        bytes.take(byte_index)
    } else {
        bytes
    }
}

/// The line number, from one, of a byte index of a text: one more than the
/// line feeds before it.
pub open spec fn line_number_at(bytes: Seq<u8>, byte_index: int) -> nat {
    line_feeds(text_before(bytes, byte_index)) + 1
}

/// The column number, from one, of a byte index of a text: one more than the
/// characters of its line before it.
pub open spec fn column_number_at(bytes: Seq<u8>, byte_index: int) -> nat {
    let before = text_before(bytes, byte_index);
    boundaries_after(bytes, last_line_start(before), before.len() as int) + 1
}

/// `SimpleFiles::new`: a collection with no file.
#[verifier::external_body]
fn simple_files_new() -> (r: SimpleFiles<String, String>)
    ensures
        simple_files_contents(r) == Seq::<(Seq<char>, Seq<char>)>::empty(),
{
    SimpleFiles::new()
}

/// `SimpleFiles::add`: appends a file and returns its index, the number of
/// files before it.
#[verifier::external_body]
fn simple_files_add(files: &mut SimpleFiles<String, String>, name: String, source: String) -> (id:
    usize)
    ensures
        simple_files_contents(*final(files)) == simple_files_contents(*old(files)).push(
            (name@, source@),
        ),
        id == simple_files_contents(*old(files)).len(),
{
    files.add(name, source)
}

/// `Files::name` of `SimpleFiles`: the name of a file that was added (it
/// fails only for an index past the files).
#[verifier::external_body]
fn simple_files_name(files: &SimpleFiles<String, String>, id: usize) -> (r: String)
    requires
        id < simple_files_contents(*files).len(),
    ensures
        r@ == simple_files_contents(*files)[id as int].0,
{
    files.name(id).unwrap()
}

/// `Files::source` of `SimpleFiles`: the text of a file that was added,
/// copied (it fails only for an index past the files).
#[verifier::external_body]
fn simple_files_source(files: &SimpleFiles<String, String>, id: usize) -> (r: String)
    requires
        id < simple_files_contents(*files).len(),
    ensures
        r@ == simple_files_contents(*files)[id as int].1,
{
    files.source(id).unwrap().to_string()
}

/// `Files::location` of `SimpleFiles`: the line number and the column number,
/// both from one, of a byte index of a file that was added. The line is one
/// more than the line feeds before the index; the column one more than the
/// positions from the line's start up to the index (or the end of the text)
/// that are followed by a character boundary. It fails only for an index
/// past the files.
#[verifier::external_body]
fn simple_files_location(files: &SimpleFiles<String, String>, id: usize, byte_index: usize) -> (r: (
    usize,
    usize,
))
    requires
        id < simple_files_contents(*files).len(),
    ensures
        r.0 == line_number_at(encode_utf8(simple_files_contents(*files)[id as int].1), byte_index as int),
        r.1 == column_number_at(encode_utf8(simple_files_contents(*files)[id as int].1), byte_index as int),
{
    let location = files.location(id, byte_index).unwrap();
    (location.line_number, location.column_number)
}

/// A line and a column, both from one, with the byte offset they stand for.
#[derive(Clone, Copy, Debug, PartialEq, Eq)]
pub struct LineColLocation {
    pub line: usize,
    pub column: usize,
    pub byte: usize,
}

/// A file, and the line:column start and end that a location stands for.
#[derive(Clone, Copy, Debug, PartialEq, Eq)]
pub struct FileLineColSpan {
    pub file_id: FileId,
    pub start: LineColLocation,
    pub end: LineColLocation,
}

/// A file, and the byte span that a location stands for.
#[derive(Clone, Copy, Debug, PartialEq, Eq)]
pub struct FileByteSpan {
    pub file_id: FileId,
    pub byte_span: ByteSpan,
}

/// The map from hashes to ids that the entries give, a later entry for a
/// hash replacing an earlier one.
pub open spec fn mapping_of(entries: Seq<([u8; 32], FileId)>) -> Map<[u8; 32], FileId>
    decreases entries.len(),
{
    if entries.len() == 0 {
        Map::empty()
    } else {
        mapping_of(entries.drop_last()).insert(entries.last().0, entries.last().1)
    }
}

/// The map from hashes to ids of files given with their hashes, names and
/// texts, each file's id its position.
pub open spec fn source_mapping(files: Seq<([u8; 32], String, String)>) -> Map<[u8; 32], FileId> {
    mapping_of(Seq::new(files.len(), |i: int| (files[i].0, i as FileId)))
}

/// No hash is listed twice.
pub open spec fn distinct_hashes(entries: Seq<([u8; 32], FileId)>) -> bool {
    forall|i: int, j: int|
        0 <= i < j < entries.len() ==> (#[trigger] entries[i]).0 != (#[trigger] entries[j]).0
}

/// With no hash listed twice, each entry is what the map gives for its
/// hash, and the map knows no other hash.
proof fn lemma_mapping_of(entries: Seq<([u8; 32], FileId)>)
    requires
        distinct_hashes(entries),
    ensures
        forall|i: int|
            0 <= i < entries.len() ==> #[trigger] mapping_of(entries).contains_key(entries[i].0)
                && mapping_of(entries)[entries[i].0] == entries[i].1,
        forall|h: [u8; 32]|
            #[trigger] mapping_of(entries).contains_key(h) ==> exists|i: int|
                0 <= i < entries.len() && (#[trigger] entries[i]).0 == h,
    decreases entries.len(),
{
    if entries.len() > 0 {
        let p = entries.drop_last();
        assert(distinct_hashes(p)) by {
            assert forall|i: int, j: int| 0 <= i < j < p.len() implies (#[trigger] p[i]).0
                != (#[trigger] p[j]).0 by {
                assert(p[i] == entries[i] && p[j] == entries[j]);
            }
        }
        lemma_mapping_of(p);
        let last = entries.last();
        assert(mapping_of(entries) == mapping_of(p).insert(last.0, last.1));
        assert forall|h: [u8; 32]| #[trigger] mapping_of(entries).contains_key(h) implies exists|
            i: int,
        | 0 <= i < entries.len() && (#[trigger] entries[i]).0 == h by {
            if h == entries.last().0 {
                assert(entries[entries.len() - 1].0 == h);
            } else {
                assert(mapping_of(p).contains_key(h));
                let i0 = choose|i: int| 0 <= i < p.len() && (#[trigger] p[i]).0 == h;
                assert(entries[i0].0 == h);
            }
        }
        assert forall|i: int| 0 <= i < entries.len() implies #[trigger] mapping_of(
            entries,
        ).contains_key(entries[i].0) && mapping_of(entries)[entries[i].0] == entries[i].1 by {
            if i < entries.len() - 1 {
                assert(p[i] == entries[i]);
                assert(entries[i].0 != entries[entries.len() - 1].0);
                assert(mapping_of(p).contains_key(p[i].0));
            }
        }
    }
}

/// The source files of a compilation, each known by the hash of its
/// contents.
pub struct MappedFiles {
    files: SimpleFiles<String, String>,
    file_mapping: Vec<([u8; 32], FileId)>,
}

impl MappedFiles {
    /// The files, in the order they were added: each one's name and text.
    pub closed spec fn spec_files(&self) -> Seq<(Seq<char>, Seq<char>)> {
        simple_files_contents(self.files)
    }

    /// The id of the file that each known hash stands for.
    pub closed spec fn spec_mapping(&self) -> Map<[u8; 32], FileId> {
        mapping_of(self.file_mapping@)
    }

    /// The inner consistency of the collection: each hash is listed once,
    /// under the id of a file.
    pub closed spec fn wf(&self) -> bool {
        &&& distinct_hashes(self.file_mapping@)
        &&& forall|i: int|
            0 <= i < self.file_mapping@.len() ==> (#[trigger] self.file_mapping@[i]).1
                < self.spec_files().len()
    }

    /// Every known hash stands for one of the files.
    pub open spec fn ids_in_range(&self) -> bool {
        forall|h: [u8; 32]|
            #[trigger] self.spec_mapping().contains_key(h) ==> self.spec_mapping()[h]
                < self.spec_files().len()
    }

    /// The bytes of the text of a file.
    pub open spec fn spec_bytes(&self, id: FileId) -> Seq<u8> {
        encode_utf8(self.spec_files()[id as int].1)
    }

    proof fn lemma_ids_in_range(&self)
        requires
            self.wf(),
        ensures
            self.ids_in_range(),
    {
        lemma_mapping_of(self.file_mapping@);
        assert forall|h: [u8; 32]| #[trigger] self.spec_mapping().contains_key(h) implies self.spec_mapping()[h]
            < self.spec_files().len() by {
            let i = choose|i: int|
                0 <= i < self.file_mapping@.len() && (#[trigger] self.file_mapping@[i]).0 == h;
            assert(self.file_mapping@[i].1 < self.spec_files().len());
        }
    }

    /// A collection with no file.
    pub fn empty() -> (r: Self)
        ensures
            r.wf(),
            r.spec_files() == Seq::<(Seq<char>, Seq<char>)>::empty(),
            r.spec_mapping() == Map::<[u8; 32], FileId>::empty(),
    {
        MappedFiles { files: simple_files_new(), file_mapping: Vec::new() }
    }

    /// Where a hash is listed.
    fn find_hash(&self, fhash: &[u8; 32]) -> (r: Option<usize>)
        requires
            self.wf(),
        ensures
            r matches Some(i) ==> i < self.file_mapping@.len() && self.file_mapping@[i as int].0
                == *fhash,
            r is None ==> forall|i: int|
                0 <= i < self.file_mapping@.len() ==> (#[trigger] self.file_mapping@[i]).0
                    != *fhash,
    {
        let mut i: usize = 0;
        while i < self.file_mapping.len()
            invariant
                i <= self.file_mapping@.len(),
                forall|j: int| 0 <= j < i ==> (#[trigger] self.file_mapping@[j]).0 != *fhash,
            decreases self.file_mapping@.len() - i,
        {
            if bytes32_eq(&self.file_mapping[i].0, fhash) {
                return Some(i);
            }
            i = i + 1;
        }
        None
    }

    /// The id of the file that a hash stands for, if it is known.
    pub fn file_hash_to_file_id(&self, fhash: &[u8; 32]) -> (r: Option<FileId>)
        requires
            self.wf(),
        ensures
            r == (if self.spec_mapping().contains_key(*fhash) {
                Some(self.spec_mapping()[*fhash])
            } else {
                None
            }),
    {
        proof {
            lemma_mapping_of(self.file_mapping@);
        }
        match self.find_hash(fhash) {
            Some(i) => Some(self.file_mapping[i].1),
            None => {
                proof {
                    if self.spec_mapping().contains_key(*fhash) {
                        let i = choose|i: int|
                            0 <= i < self.file_mapping@.len() && (#[trigger] self.file_mapping@[i]).0
                                == *fhash;
                        assert(self.file_mapping@[i].0 != *fhash);
                    }
                }
                None
            },
        }
    }

    /// Adds a file under its hash; the hash now stands for it.
    pub fn add(&mut self, fhash: [u8; 32], fname: String, source: String)
        requires
            old(self).wf(),
        ensures
            final(self).wf(),
            final(self).spec_files() == old(self).spec_files().push((fname@, source@)),
            final(self).spec_mapping() == old(self).spec_mapping().insert(
                fhash,
                old(self).spec_files().len() as FileId,
            ),
    {
        let ghost old_entries = self.file_mapping@;
        let ghost old_files = self.spec_files();
        let found = self.find_hash(&fhash);
        let id = simple_files_add(&mut self.files, fname, source);
        proof {
            lemma_mapping_of(old_entries);
        }
        match found {
            Some(i) => {
                self.file_mapping.set(i, (fhash, id));
                proof {
                    let e = self.file_mapping@;
                    lemma_mapping_of(e);
                    assert(distinct_hashes(e)) by {
                        assert forall|a: int, b: int| 0 <= a < b < e.len() implies (#[trigger] e[a]).0
                            != (#[trigger] e[b]).0 by {
                            assert(old_entries[a].0 != old_entries[b].0);
                        }
                    }
                    lemma_mapping_of(e);
                    assert(mapping_of(e) =~= mapping_of(old_entries).insert(fhash, id)) by {
                        assert forall|h: [u8; 32]| #[trigger] mapping_of(e).contains_key(h)
                            <==> mapping_of(old_entries).insert(fhash, id).contains_key(h) by {
                            if mapping_of(e).contains_key(h) && h != fhash {
                                let k = choose|k: int| 0 <= k < e.len() && (#[trigger] e[k]).0 == h;
                                assert(old_entries[k] == e[k]);
                            }
                            if mapping_of(old_entries).contains_key(h) && h != fhash {
                                let k = choose|k: int|
                                    0 <= k < old_entries.len() && (#[trigger] old_entries[k]).0 == h;
                                assert(e[k] == old_entries[k]);
                            }
                            if h == fhash {
                                assert(e[i as int].0 == h);
                            }
                        }
                        assert forall|h: [u8; 32]| #[trigger] mapping_of(e).contains_key(h)
                            implies mapping_of(e)[h] == mapping_of(old_entries).insert(fhash, id)[h] by {
                            let k = choose|k: int| 0 <= k < e.len() && (#[trigger] e[k]).0 == h;
                            if k != i {
                                assert(old_entries[k] == e[k]);
                            }
                        }
                    }
                    assert forall|k: int| 0 <= k < e.len() implies (#[trigger] e[k]).1
                        < self.spec_files().len() by {
                        if k != i {
                            assert(e[k] == old_entries[k]);
                        }
                    }
                }
            },
            None => {
                self.file_mapping.push((fhash, id));
                proof {
                    let e = self.file_mapping@;
                    assert(e.drop_last() =~= old_entries);
                    assert(distinct_hashes(e)) by {
                        assert forall|a: int, b: int| 0 <= a < b < e.len() implies (#[trigger] e[a]).0
                            != (#[trigger] e[b]).0 by {
                            if b < e.len() - 1 {
                                assert(old_entries[a].0 != old_entries[b].0);
                            } else {
                                assert(e[a] == old_entries[a]);
                            }
                        }
                    }
                    assert forall|k: int| 0 <= k < e.len() implies (#[trigger] e[k]).1
                        < self.spec_files().len() by {
                        if k < e.len() - 1 {
                            assert(e[k] == old_entries[k]);
                        }
                    }
                }
            },
        }
    }

    /// The files with their hashes, names and texts, each added in turn (a
    /// later file with a hash already seen takes the hash over).
    pub fn new(files: Vec<([u8; 32], String, String)>) -> (r: Self)
        ensures
            r.wf(),
            r.ids_in_range(),
            r.spec_files() == files@.map_values(|f: ([u8; 32], String, String)| (f.1@, f.2@)),
            r.spec_mapping() == source_mapping(files@),
    {
        let ghost entries = Seq::new(files@.len(), |i: int| (files@[i].0, i as FileId));
        let mut mapped = MappedFiles::empty();
        let mut rest = files;
        let ghost all = rest@;
        let total = rest.len();
        let mut k: usize = 0;
        while rest.len() > 0
            invariant
                mapped.wf(),
                k <= all.len(),
                all.len() == total,
                rest@ == all.skip(k as int),
                mapped.spec_files() == all.take(k as int).map_values(
                    |f: ([u8; 32], String, String)| (f.1@, f.2@),
                ),
                mapped.spec_mapping() == mapping_of(entries.take(k as int)),
                entries == Seq::new(all.len(), |i: int| (all[i].0, i as FileId)),
            decreases rest@.len(),
        {
            let f = rest.remove(0);
            proof {
                assert(f == all[k as int]);
                assert(rest@ =~= all.skip(k + 1));
            }
            let (fhash, fname, source) = f;
            mapped.add(fhash, fname, source);
            proof {
                assert(all.take(k + 1) =~= all.take(k as int).push(all[k as int]));
                assert(all.take(k + 1).map_values(|f: ([u8; 32], String, String)| (f.1@, f.2@))
                    =~= all.take(k as int).map_values(
                    |f: ([u8; 32], String, String)| (f.1@, f.2@),
                ).push((all[k as int].1@, all[k as int].2@)));
                assert(entries.take(k + 1).drop_last() =~= entries.take(k as int));
            }
            k = k + 1;
        }
        proof {
            assert(all.take(k as int) =~= all);
            assert(entries.take(k as int) =~= entries);
            mapped.lemma_ids_in_range();
        }
        mapped
    }

    /// The byte span of a location, in the file its hash stands for.
    pub fn byte_location(&self, loc: Loc) -> (r: FileByteSpan)
        requires
            self.wf(),
            self.spec_mapping().contains_key(loc.file_hash),
        ensures
            r.file_id == self.spec_mapping()[loc.file_hash],
            r.byte_span == (ByteSpan { start: loc.start as usize, end: loc.end as usize }),
    {
        let file_id = self.file_hash_to_file_id(&loc.file_hash).unwrap();
        FileByteSpan {
            byte_span: ByteSpan { start: loc.start as usize, end: loc.end as usize },
            file_id,
        }
    }

    /// The lines and columns (columns from zero) of the start and end of a
    /// location, in the file its hash stands for.
    pub fn location(&self, loc: Loc) -> (r: FileLineColSpan)
        requires
            self.wf(),
            self.spec_mapping().contains_key(loc.file_hash),
        ensures
            r.file_id == self.spec_mapping()[loc.file_hash],
            r.start.byte == loc.start,
            r.start.line == line_number_at(self.spec_bytes(r.file_id), loc.start as int),
            r.start.column == column_number_at(self.spec_bytes(r.file_id), loc.start as int) - 1,
            r.end.byte == loc.end,
            r.end.line == line_number_at(self.spec_bytes(r.file_id), loc.end as int),
            r.end.column == column_number_at(self.spec_bytes(r.file_id), loc.end as int) - 1,
    {
        proof {
            self.lemma_ids_in_range();
        }
        let start_loc = loc.start as usize;
        let end_loc = loc.end as usize;
        let file_id = self.file_hash_to_file_id(&loc.file_hash).unwrap();
        let (start_line, start_column) = simple_files_location(&self.files, file_id, start_loc);
        let (end_line, end_column) = simple_files_location(&self.files, file_id, end_loc);
        FileLineColSpan {
            file_id,
            start: LineColLocation { line: start_line, column: start_column - 1, byte: start_loc },
            end: LineColLocation { line: end_line, column: end_column - 1, byte: end_loc },
        }
    }

    /// The name of a file.
    pub(crate) fn file_name(&self, id: FileId) -> (r: String)
        requires
            self.wf(),
            id < self.spec_files().len(),
        ensures
            r@ == self.spec_files()[id as int].0,
    {
        simple_files_name(&self.files, id)
    }

    /// The text of a file.
    pub(crate) fn file_source(&self, id: FileId) -> (r: String)
        requires
            self.wf(),
            id < self.spec_files().len(),
        ensures
            r@ == self.spec_files()[id as int].1,
    {
        simple_files_source(&self.files, id)
    }
}


/// After a file is added under a hash, the hash stands for that file, with
/// the name and text added; every other hash stands for the file it stood
/// for before.
pub proof fn lemma_add_then_lookup(
    before: MappedFiles,
    after: MappedFiles,
    fhash: [u8; 32],
    name: Seq<char>,
    text: Seq<char>,
    other: [u8; 32],
)
    requires
        before.wf(),
        before.spec_files().len() < usize::MAX,
        after.spec_files() == before.spec_files().push((name, text)),
        after.spec_mapping() == before.spec_mapping().insert(
            fhash,
            before.spec_files().len() as FileId,
        ),
    ensures
        after.spec_mapping().contains_key(fhash),
        after.spec_files()[after.spec_mapping()[fhash] as int] == (name, text),
        other != fhash ==> after.spec_mapping().contains_key(other)
            == before.spec_mapping().contains_key(other),
        other != fhash && before.spec_mapping().contains_key(other) ==> after.spec_files()[after.spec_mapping()[other] as int]
            == before.spec_files()[before.spec_mapping()[other] as int],
{
    before.lemma_ids_in_range();
}

} // verus!
