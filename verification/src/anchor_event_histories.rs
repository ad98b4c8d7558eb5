//! Append-only, indexed history of settlement outcomes.
//!
//! Every record carries a monotonic, never-reused sequence index. The log
//! exposes a movable `[start_index, end_index)` window, so old entries can
//! be discarded without renumbering the remaining ones.

use vstd::prelude::*;
use crate::types::AnchorEvent;

verus! {

/// One immutable entry of the event history.
#[verifier::ext_equal]
pub struct AnchorEventRecord {
    /// The sequence index assigned when the record was appended.
    pub index: u64,
    /// The recorded settlement outcome.
    pub event: AnchorEvent,
}

/// The anchor events data.
pub struct AnchorEventHistories {
    /// The retained records, oldest first.
    pub histories: Vec<AnchorEventRecord>,
    /// The index of the oldest retained record.
    pub start_index: u64,
    /// The index that the next appended record will receive.
    pub end_index: u64,
}

impl AnchorEventHistories {
    /// Well-formedness: the window matches the retained records, and the
    /// record at offset `i` carries index `start_index + i`.
    pub open spec fn wf(&self) -> bool {
        &&& self.end_index == self.start_index + self.histories@.len()
        &&& forall|i: int|
            0 <= i < self.histories@.len() ==> (#[trigger] self.histories@[i]).index
                == self.start_index + i
    }

    /// Creates an empty history starting at index zero.
    pub fn new() -> (r: Self)
        ensures
            r.wf(),
            r.histories@ =~= Seq::<AnchorEventRecord>::empty(),
            r.start_index == 0,
            r.end_index == 0,
    {
        AnchorEventHistories { histories: Vec::new(), start_index: 0, end_index: 0 }
    }

    /// Appends `event`, assigning it the next sequence index.
    pub fn append(&mut self, event: AnchorEvent)
        requires
            old(self).wf(),
            old(self).end_index < u64::MAX,
        ensures
            final(self).wf(),
            final(self).start_index == old(self).start_index,
            final(self).end_index == old(self).end_index + 1,
            final(self).histories@ == old(self).histories@.push(
                AnchorEventRecord { index: old(self).end_index, event },
            ),
    {
        let record = AnchorEventRecord { index: self.end_index, event };
        self.histories.push(record);
        self.end_index = self.end_index + 1;
    }

    /// Returns the retained records whose indices fall in `[start, end)`.
    pub fn range(&self, start: u64, end: u64) -> (r: Vec<AnchorEventRecord>)
        requires
            self.wf(),
        ensures
            ({
                let lo: int = if start > self.start_index {
                    start as int
                } else {
                    self.start_index as int
                };
                let hi: int = if end < self.end_index {
                    end as int
                } else {
                    self.end_index as int
                };
                if lo < hi {
                    r@ =~= self.histories@.subrange(
                        lo - self.start_index,
                        hi - self.start_index,
                    )
                } else {
                    r@ =~= Seq::<AnchorEventRecord>::empty()
                }
            }),
    {
        let lo: u64 = if start > self.start_index {
            start
        } else {
            self.start_index
        };
        let hi: u64 = if end < self.end_index {
            end
        } else {
            self.end_index
        };
        let mut r: Vec<AnchorEventRecord> = Vec::new();
        if lo >= hi {
            return r;
        }
        let n: usize = self.histories.len();
        let ghost off_lo: int = lo - self.start_index;
        let ghost off_hi: int = hi - self.start_index;
        proof {
            assert(0 <= off_lo <= off_hi <= n);
        }
        let mut i: usize = (lo - self.start_index) as usize;
        let hi_off: usize = (hi - self.start_index) as usize;
        while i < hi_off
            invariant
                self.wf(),
                0 <= off_lo <= i <= off_hi,
                off_hi <= self.histories@.len(),
                off_hi == hi_off,
                r@ =~= self.histories@.subrange(off_lo as int, i as int),
            decreases off_hi - i,
        {
            let record = AnchorEventRecord {
                index: self.histories[i].index,
                event: self.histories[i].event.duplicate(),
            };
            proof {
                assert(record =~= self.histories@[i as int]);
            }
            r.push(record);
            proof {
                assert(r@ =~= self.histories@.subrange(off_lo as int, (i + 1) as int));
            }
            i = i + 1;
        }
        r
    }

    /// Moves the start of the window up to `new_start`, discarding the
    /// records below it without renumbering the remaining ones. A start
    /// below the current window is a no-op; one beyond its end empties it.
    pub fn advance_start(&mut self, new_start: u64)
        requires
            old(self).wf(),
        ensures
            final(self).wf(),
            final(self).end_index == old(self).end_index,
            ({
                let ns: int = if new_start < old(self).start_index {
                    old(self).start_index as int
                } else if new_start > old(self).end_index {
                    old(self).end_index as int
                } else {
                    new_start as int
                };
                &&& final(self).start_index == ns
                &&& final(self).histories@ =~= old(self).histories@.subrange(
                    ns - old(self).start_index,
                    old(self).histories@.len() as int,
                )
            }),
    {
        let ns: u64 = if new_start < self.start_index {
            self.start_index
        } else if new_start > self.end_index {
            self.end_index
        } else {
            new_start
        };
        let drop: usize = (ns - self.start_index) as usize;
        let mut kept: Vec<AnchorEventRecord> = Vec::new();
        let mut i: usize = drop;
        while i < self.histories.len()
            invariant
                drop <= i <= self.histories@.len(),
                kept@ =~= self.histories@.subrange(drop as int, i as int),
            decreases self.histories@.len() - i,
        {
            let record = AnchorEventRecord {
                index: self.histories[i].index,
                event: self.histories[i].event.duplicate(),
            };
            proof {
                assert(record =~= self.histories@[i as int]);
            }
            kept.push(record);
            proof {
                assert(kept@ =~= self.histories@.subrange(drop as int, i + 1 as int));
            }
            i = i + 1;
        }
        self.histories = kept;
        self.start_index = ns;
    }
}

/// Whether `post` is `pre` with exactly one record appended, carrying the
/// sequence index that `pre` owed next.
pub open spec fn spec_appends_one_event(pre: AnchorEventHistories, post: AnchorEventHistories) -> bool {
    &&& post.start_index == pre.start_index
    &&& post.end_index == pre.end_index + 1
    &&& post.histories@.len() == pre.histories@.len() + 1
    &&& post.histories@.subrange(0, pre.histories@.len() as int) == pre.histories@
    &&& post.histories@.last().index == pre.end_index
}

/// LAW: the sequence indices of the retained records are strictly
/// increasing, so no index is ever reused within the log.
pub proof fn lemma_event_indices_strictly_increasing(h: AnchorEventHistories, i: int, j: int)
    requires
        h.wf(),
        0 <= i < j < h.histories@.len(),
    ensures
        h.histories@[i].index < h.histories@[j].index,
{
}

} // verus!
