//! Consistent reads: which checkpoint a query is answered at.
use vstd::prelude::*;

verus! {

/// How objects are selected within a checkpoint range.
#[derive(Clone, Copy, Debug, PartialEq, Eq)]
pub enum View {
    /// Objects that match, even when a newer version exists in the range
    /// (lookups by identifier and version).
    Historical,
    /// Objects that match in their most recent version within the range.
    Consistent,
}

/// A cursor into a `Vec` field: the element's index and the checkpoint at
/// which the cursor was made.
#[derive(Clone, Debug, PartialEq, Eq)]
pub struct ConsistentIndexCursor {
    pub ix: usize,
    /// The checkpoint at which the entity of this cursor was viewed.
    pub c: u64,
}

/// A cursor into a `Map` field: the element's name and the checkpoint at
/// which the cursor was made.
#[derive(Clone, Debug, PartialEq, Eq)]
pub struct ConsistentNamedCursor {
    pub name: String,
    /// The checkpoint at which the entity of this cursor was viewed.
    pub c: u64,
}

/// The high checkpoint watermark of a request, for consistency across queries.
#[derive(Clone, Copy, Debug, PartialEq, Eq)]
pub struct CheckpointViewedAt(pub u64);

/// Cursors that carry the checkpoint they were made at.
pub trait Checkpointed {
    /// The checkpoint at which the cursor was made.
    spec fn spec_checkpoint_viewed_at(&self) -> u64;

    /// The checkpoint at which the cursor was made.
    fn checkpoint_viewed_at(&self) -> (r: u64)
        ensures
            r == self.spec_checkpoint_viewed_at(),
    ;
}

impl Checkpointed for ConsistentIndexCursor {
    open spec fn spec_checkpoint_viewed_at(&self) -> u64 {
        self.c
    }

    fn checkpoint_viewed_at(&self) -> (r: u64) {
        self.c
    }
}

impl Checkpointed for ConsistentNamedCursor {
    open spec fn spec_checkpoint_viewed_at(&self) -> u64 {
        self.c
    }

    fn checkpoint_viewed_at(&self) -> (r: u64) {
        self.c
    }
}

/// The range a query is answered over: `None` when the requested checkpoint
/// lies outside the available range `[lhs, rhs]` of the database; otherwise
/// the range from `lhs` up to the requested checkpoint, or up to `rhs` when
/// none is requested.
pub open spec fn spec_consistent_range(available: (u64, u64), checkpoint_viewed_at: Option<u64>) -> Option<
    (u64, u64),
> {
    match checkpoint_viewed_at {
        Some(c) => if c < available.0 || available.1 < c {
            None
        } else {
            Some((available.0, c))
        },
        None => Some(available),
    }
}

/// Checks the requested checkpoint against the available range `(lhs, rhs)`
/// of the database (read by the caller), and gives the range to query.
pub fn consistent_range(available_range: (u64, u64), checkpoint_viewed_at: Option<u64>) -> (r:
    Option<(u64, u64)>)
    ensures
        r == spec_consistent_range(available_range, checkpoint_viewed_at),
{
    let (lhs, mut rhs) = available_range;
    if let Some(checkpoint_viewed_at) = checkpoint_viewed_at {
        if checkpoint_viewed_at < lhs || rhs < checkpoint_viewed_at {
            return None;
        }
        rhs = checkpoint_viewed_at;
    }
    Some((lhs, rhs))
}

/// A range given for a request lies inside the available range and ends at
/// the requested checkpoint.
pub proof fn lemma_consistent_range_within(available: (u64, u64), checkpoint_viewed_at: Option<u64>)
    requires
        available.0 <= available.1,
    ensures
        spec_consistent_range(available, checkpoint_viewed_at) matches Some((l, h)) ==> l
            == available.0 && l <= h <= available.1,
        checkpoint_viewed_at matches Some(c) ==> (spec_consistent_range(
            available,
            checkpoint_viewed_at,
        ) matches Some((_, h)) ==> h == c),
        checkpoint_viewed_at is None ==> spec_consistent_range(available, checkpoint_viewed_at)
            == Some(available),
{
}

} // verus!
