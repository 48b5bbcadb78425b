use vstd::prelude::*;

use crate::record::{seq_views, AddressRecord, RecordView};

verus! {

/// The persistence batcher: buffers discovered records and hands back a full
/// batch the moment the configured threshold is reached. A threshold of 0
/// means "defer everything to the final flush".
pub struct Batcher {
    batch_size: u32,
    buffer: Vec<AddressRecord>,
}

impl Batcher {
    /// The configured flush threshold.
    pub closed spec fn batch_size(self) -> u32 {
        self.batch_size
    }

    /// The records currently awaiting persistence, in discovery order.
    pub closed spec fn pending(self) -> Seq<RecordView> {
        seq_views(self.buffer@)
    }

    /// With a positive threshold the buffer always stays below it: reaching
    /// it hands the batch out at once.
    pub open spec fn wf(self) -> bool {
        self.batch_size() > 0 ==> self.pending().len() < self.batch_size()
    }

    pub fn new(batch_size: u32) -> (b: Batcher)
        ensures
            b.wf(),
            b.batch_size() == batch_size,
            b.pending() == Seq::<RecordView>::empty(),
    {
        let b = Batcher { batch_size, buffer: Vec::new() };
        proof {
            assert(b.pending() =~= Seq::<RecordView>::empty());
        }
        b
    }

    /// Accept one record. When the buffer reaches the threshold, the whole
    /// batch (in discovery order, the new record last) is returned for one
    /// batch insert and the buffer is emptied; otherwise the record is
    /// buffered and nothing is returned.
    pub fn push(&mut self, r: AddressRecord) -> (ready: Option<Vec<AddressRecord>>)
        requires
            old(self).wf(),
        ensures
            final(self).wf(),
            final(self).batch_size() == old(self).batch_size(),
            old(self).batch_size() > 0 && old(self).pending().len() + 1 >= old(
                self,
            ).batch_size() ==> {
                &&& ready matches Some(batch) && seq_views(batch@) == old(self).pending().push(
                    r@,
                )
                &&& final(self).pending() == Seq::<RecordView>::empty()
            },
            !(old(self).batch_size() > 0 && old(self).pending().len() + 1 >= old(
                self,
            ).batch_size()) ==> {
                &&& ready is None
                &&& final(self).pending() == old(self).pending().push(r@)
            },
    {
        self.buffer.push(r);
        proof {
            assert(seq_views(self.buffer@) =~= seq_views(old(self).buffer@).push(r@));
        }
        if self.batch_size > 0 && self.buffer.len() >= self.batch_size as usize {
            let mut batch: Vec<AddressRecord> = Vec::new();
            core::mem::swap(&mut batch, &mut self.buffer);
            proof {
                assert(self.pending() =~= Seq::<RecordView>::empty());
            }
            Some(batch)
        } else {
            None
        }
    }

    /// The final flush at session end: every still-buffered record, or
    /// nothing when the buffer is already empty. The buffer is empty
    /// afterwards either way.
    pub fn take_remaining(&mut self) -> (rest: Option<Vec<AddressRecord>>)
        requires
            old(self).wf(),
        ensures
            final(self).wf(),
            final(self).batch_size() == old(self).batch_size(),
            final(self).pending() == Seq::<RecordView>::empty(),
            old(self).pending().len() > 0 ==> (rest matches Some(batch) && seq_views(batch@)
                == old(self).pending()),
            old(self).pending().len() == 0 ==> rest is None,
    {
        if self.buffer.len() == 0 {
            proof {
                assert(self.pending() =~= Seq::<RecordView>::empty());
            }
            None
        } else {
            let mut batch: Vec<AddressRecord> = Vec::new();
            core::mem::swap(&mut batch, &mut self.buffer);
            proof {
                assert(self.pending() =~= Seq::<RecordView>::empty());
            }
            Some(batch)
        }
    }
}

/// The degrade path of a flush: when the batch insert failed, every record of
/// the batch is inserted individually, in order; when it succeeded, no
/// further call is made. The session never aborts on either outcome.
pub fn individual_retries(batch: &Vec<AddressRecord>, batch_succeeded: bool) -> (retries: Vec<
    AddressRecord,
>)
    ensures
        batch_succeeded ==> retries@.len() == 0,
        !batch_succeeded ==> seq_views(retries@) == seq_views(batch@) && retries@.len()
            == batch@.len(),
{
    if batch_succeeded {
        Vec::new()
    } else {
        let mut retries: Vec<AddressRecord> = Vec::new();
        let mut i: usize = 0;
        while i < batch.len()
            invariant
                i <= batch@.len(),
                seq_views(retries@) == seq_views(batch@).subrange(0, i as int),
            decreases batch@.len() - i,
        {
            let ghost pre = retries@;
            let dup = batch[i].duplicate();
            retries.push(dup);
            proof {
                assert(seq_views(batch@).len() == batch@.len());
                assert(seq_views(pre).len() == pre.len());
                assert(pre.len() == i as int);
                assert forall|j: int| 0 <= j < pre.len() + 1 implies seq_views(retries@)[j]
                    == seq_views(batch@).subrange(0, i + 1)[j] by {
                    assert(seq_views(retries@)[j] == retries@[j]@);
                    assert(seq_views(batch@).subrange(0, i + 1)[j] == seq_views(batch@)[j]);
                    assert(seq_views(batch@)[j] == batch@[j]@);
                    if j < pre.len() {
                        assert(retries@[j] == pre[j]);
                        assert(seq_views(pre)[j] == pre[j]@);
                    } else {
                        assert(retries@[j] == dup);
                    }
                }
                assert(seq_views(retries@) =~= seq_views(batch@).subrange(0, i + 1));
            }
            i += 1;
        }
        proof {
            assert(seq_views(batch@).subrange(0, batch@.len() as int) =~= seq_views(batch@));
        }
        retries
    }
}

} // verus!
