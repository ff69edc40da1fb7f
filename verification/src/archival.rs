//! Archiving checkpoints: checkpoints are gathered into a file until it is
//! large enough, old enough, spans enough checkpoints or the epoch changes;
//! then it is uploaded and a new file starts. Progress is reported only once
//! a file has been uploaded.
use vstd::prelude::*;

verus! {

/// Where and how often the archive is written.
#[derive(Debug, PartialEq, Eq)]
pub struct ArchivalConfig {
    pub remote_url: String,
    pub remote_store_options: Vec<(String, String)>,
    /// Upload once the file would grow beyond this many bytes.
    pub commit_file_size: usize,
    /// Upload once the file has been open this long.
    pub commit_duration_seconds: u64,
}

/// The file being gathered: its epoch, the checkpoints `start..end` it
/// holds, their serialized contents and summaries, and whether progress may
/// be reported.
#[derive(Debug, PartialEq, Eq)]
pub struct AccumulatedState {
    pub epoch: u64,
    pub checkpoint_range_start: u64,
    pub checkpoint_range_end: u64,
    pub buffer: Vec<u8>,
    pub summary_buffer: Vec<u8>,
    pub should_update_progress: bool,
}

/// What to do with a checkpoint.
#[derive(Clone, Copy, Debug, PartialEq, Eq)]
pub enum CheckpointStep {
    /// It is already archived: nothing.
    Skip,
    /// Add it to the file.
    Append,
    /// Upload the file, start a new one at this checkpoint, and add it.
    UploadThenAppend,
}

/// The mathematical value of the state.
pub struct AccumulatedStateView {
    pub epoch: u64,
    pub start: u64,
    pub end: u64,
    pub buffer: Seq<u8>,
    pub summary_buffer: Seq<u8>,
    pub should_update_progress: bool,
}

/// The gathered file must be uploaded before the checkpoint joins it.
pub open spec fn must_upload(
    s: AccumulatedStateView,
    epoch: u64,
    blob_size: usize,
    commit_file_size: usize,
    max_checkpoints_in_progress: u64,
    commit_duration_elapsed: bool,
) -> bool {
    &&& s.buffer.len() > 0
    &&& {
        ||| s.buffer.len() + blob_size > commit_file_size
        ||| s.epoch != epoch
        ||| s.end - s.start > max_checkpoints_in_progress / 2
        ||| commit_duration_elapsed
    }
}

impl AccumulatedState {
    pub open spec fn view(&self) -> AccumulatedStateView {
        AccumulatedStateView {
            epoch: self.epoch,
            start: self.checkpoint_range_start,
            end: self.checkpoint_range_end,
            buffer: self.buffer@,
            summary_buffer: self.summary_buffer@,
            should_update_progress: self.should_update_progress,
        }
    }

    /// The range of checkpoints is well formed.
    pub open spec fn wf(&self) -> bool {
        self.checkpoint_range_start <= self.checkpoint_range_end
    }

    /// The state after reading the archive's manifest: an empty file of the
    /// manifest's epoch, starting at its next checkpoint.
    pub fn new(epoch: u64, next_checkpoint: u64) -> (r: AccumulatedState)
        ensures
            r.wf(),
            r.view() == (AccumulatedStateView {
                epoch,
                start: next_checkpoint,
                end: next_checkpoint,
                buffer: Seq::empty(),
                summary_buffer: Seq::empty(),
                should_update_progress: false,
            }),
    {
        AccumulatedState {
            epoch,
            checkpoint_range_start: next_checkpoint,
            checkpoint_range_end: next_checkpoint,
            buffer: Vec::new(),
            summary_buffer: Vec::new(),
            should_update_progress: false,
        }
    }

    /// Decides what to do with the checkpoint `sequence_number` of `epoch`,
    /// whose serialized contents take `blob_size` bytes. A checkpoint before
    /// the file's range is skipped. An empty file takes the checkpoint's
    /// epoch, which is the file's epoch or the next one.
    pub fn on_checkpoint(
        &mut self,
        sequence_number: u64,
        epoch: u64,
        blob_size: usize,
        commit_file_size: usize,
        max_checkpoints_in_progress: u64,
        commit_duration_elapsed: bool,
    ) -> (r: CheckpointStep)
        requires
            old(self).wf(),
            sequence_number >= old(self).checkpoint_range_start && old(self).buffer@.len() == 0
                ==> (epoch == old(self).epoch || epoch == old(self).epoch + 1),
            sequence_number >= old(self).checkpoint_range_start && old(self).buffer@.len() > 0
                ==> old(self).buffer@.len() + blob_size <= usize::MAX,
        ensures
            final(self).wf(),
            sequence_number < old(self).checkpoint_range_start ==> r == CheckpointStep::Skip
                && final(self).view() == old(self).view(),
            sequence_number >= old(self).checkpoint_range_start ==> {
                &&& final(self).view() == (AccumulatedStateView {
                    epoch: if old(self).buffer@.len() == 0 {
                        epoch
                    } else {
                        old(self).epoch
                    },
                    ..old(self).view()
                })
                &&& r == if must_upload(
                    old(self).view(),
                    epoch,
                    blob_size,
                    commit_file_size,
                    max_checkpoints_in_progress,
                    commit_duration_elapsed,
                ) {
                    CheckpointStep::UploadThenAppend
                } else {
                    CheckpointStep::Append
                }
            },
    {
        if sequence_number < self.checkpoint_range_start {
            return CheckpointStep::Skip;
        }
        if self.buffer.len() == 0 {
            self.epoch = epoch;
        }
        if self.buffer.len() > 0 && (self.buffer.len() + blob_size > commit_file_size || self.epoch
            != epoch || self.checkpoint_range_end - self.checkpoint_range_start
            > max_checkpoints_in_progress / 2 || commit_duration_elapsed) {
            CheckpointStep::UploadThenAppend
        } else {
            CheckpointStep::Append
        }
    }

    /// Starts a new, empty file of `epoch` at `sequence_number`, once the
    /// previous one is uploaded; progress may then be reported.
    pub fn start_file(&mut self, epoch: u64, sequence_number: u64)
        ensures
            final(self).wf(),
            final(self).view() == (AccumulatedStateView {
                epoch,
                start: sequence_number,
                end: sequence_number,
                buffer: Seq::empty(),
                summary_buffer: Seq::empty(),
                should_update_progress: true,
            }),
    {
        self.epoch = epoch;
        self.checkpoint_range_start = sequence_number;
        self.checkpoint_range_end = sequence_number;
        self.buffer = Vec::new();
        self.summary_buffer = Vec::new();
        self.should_update_progress = true;
    }

    /// Adds a checkpoint's serialized contents and summary to the file.
    pub fn append(&mut self, contents: &[u8], summary: &[u8])
        requires
            old(self).wf(),
            old(self).checkpoint_range_end < u64::MAX,
        ensures
            final(self).wf(),
            final(self).view() == (AccumulatedStateView {
                end: (old(self).checkpoint_range_end + 1) as u64,
                buffer: old(self).buffer@ + contents@,
                summary_buffer: old(self).summary_buffer@ + summary@,
                ..old(self).view()
            }),
    {
        push_bytes(&mut self.buffer, contents);
        push_bytes(&mut self.summary_buffer, summary);
        self.checkpoint_range_end = self.checkpoint_range_end + 1;
    }

    /// The checkpoint up to which progress is reported after
    /// `sequence_number`: the one before it, once a file has been uploaded
    /// since the last report; then nothing until the next upload.
    pub fn save_progress(&mut self, sequence_number: u64) -> (r: Option<u64>)
        ensures
            (final(self).view(), r) == spec_save_progress(old(self).view(), sequence_number),
    {
        let should_update_progress = self.should_update_progress;
        self.should_update_progress = false;
        if should_update_progress && sequence_number > 0 {
            Some(sequence_number - 1)
        } else {
            None
        }
    }
}

/// The state after reporting progress at `sequence_number`, and the
/// checkpoint reported: the one before it, when a file was uploaded since the
/// last report.
pub open spec fn spec_save_progress(s: AccumulatedStateView, sequence_number: u64) -> (
    AccumulatedStateView,
    Option<u64>,
) {
    (
        AccumulatedStateView { should_update_progress: false, ..s },
        if s.should_update_progress && sequence_number > 0 {
            Some((sequence_number - 1) as u64)
        } else {
            None
        },
    )
}

/// Progress is reported at most once per upload: a second report, with no
/// file started in between, reports nothing.
pub proof fn lemma_progress_reported_once(s: AccumulatedStateView, first: u64, second: u64)
    ensures
        spec_save_progress(spec_save_progress(s, first).0, second).1 is None,
        spec_save_progress(spec_save_progress(s, first).0, second).0 == spec_save_progress(
            s,
            first,
        ).0,
{
}

/// The magic number that opens a file of checkpoint contents.
pub const CHECKPOINT_FILE_MAGIC: u32 = 0x0000DEAD;

/// The magic number that opens a file of checkpoint summaries.
pub const SUMMARY_FILE_MAGIC: u32 = 0x0000CAFE;

/// The storage-format byte of an archive file: a blob.
pub const STORAGE_FORMAT_BLOB: u8 = 0;

/// The compression byte of an archive file: zstd.
pub const FILE_COMPRESSION_ZSTD: u8 = 1;

/// The four bytes of a number, most significant first.
pub open spec fn be_u32(x: u32) -> Seq<u8> {
    seq![
        (x / 0x100_0000) as u8,
        ((x / 0x1_0000) % 0x100) as u8,
        ((x / 0x100) % 0x100) as u8,
        (x % 0x100) as u8,
    ]
}

/// The bytes of an archive file before compression: the magic number
/// (big-endian), the storage-format byte, the compression byte, then the
/// contents.
pub fn archive_file_bytes(magic: u32, content: &[u8]) -> (r: Vec<u8>)
    ensures
        r@ == be_u32(magic) + seq![STORAGE_FORMAT_BLOB, FILE_COMPRESSION_ZSTD] + content@,
{
    let mut out: Vec<u8> = Vec::new();
    out.push((magic / 0x100_0000) as u8);
    out.push(((magic / 0x1_0000) % 0x100) as u8);
    out.push(((magic / 0x100) % 0x100) as u8);
    out.push((magic % 0x100) as u8);
    out.push(STORAGE_FORMAT_BLOB);
    out.push(FILE_COMPRESSION_ZSTD);
    let ghost header = out@;
    push_bytes(&mut out, content);
    assert(header =~= be_u32(magic) + seq![STORAGE_FORMAT_BLOB, FILE_COMPRESSION_ZSTD]);
    out
}

/// The header of an archive file is read back as the magic number it was
/// written with.
pub proof fn archive_header_reads_back(magic: u32, content: Seq<u8>)
    ensures
        ({
            let b = be_u32(magic) + seq![STORAGE_FORMAT_BLOB, FILE_COMPRESSION_ZSTD] + content;
            &&& b[0] as int * 0x100_0000 + b[1] as int * 0x1_0000 + b[2] as int * 0x100 + b[3] as int
                == magic as int
            &&& b[4] == STORAGE_FORMAT_BLOB
            &&& b[5] == FILE_COMPRESSION_ZSTD
            &&& b.skip(6) == content
        }),
{
    let b = be_u32(magic) + seq![STORAGE_FORMAT_BLOB, FILE_COMPRESSION_ZSTD] + content;
    assert(b.skip(6) =~= content);
    let m = magic as int;
    assert((m / 0x100_0000) * 0x100_0000 + ((m / 0x1_0000) % 0x100) * 0x1_0000 + ((m / 0x100)
        % 0x100) * 0x100 + m % 0x100 == m) by (nonlinear_arith)
        requires
            0 <= m < 0x1_0000_0000,
    ;
}

/// Appends the bytes of a slice.
fn push_bytes(out: &mut Vec<u8>, data: &[u8])
    ensures
        final(out)@ == old(out)@ + data@,
{
    let mut i: usize = 0;
    while i < data.len()
        invariant
            i <= data@.len(),
            out@ == old(out)@ + data@.take(i as int),
        decreases data@.len() - i,
    {
        out.push(data[i]);
        i = i + 1;
        assert(out@ =~= old(out)@ + data@.take(i as int));
    }
    assert(data@.take(data@.len() as int) =~= data@);
}

} // verus!
