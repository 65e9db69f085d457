//! FIFO of decoded PCM samples.

use vstd::prelude::*;

verus! {

/// Queue of decoded samples, drained in the order they were pushed.
/// Stereo samples sit interleaved: left, right, left, right.
pub struct SampleBuffer {
    /// Every sample pushed since the last `clear`.
    samples: Vec<i32>,
    /// Index of the next sample to hand out.
    pos: usize,
}

impl SampleBuffer {
    /// The samples pushed and not yet drained, oldest first.
    pub closed spec fn pending(&self) -> Seq<i32> {
        self.samples@.skip(self.pos as int)
    }

    /// The read cursor never runs past the end of the storage.
    pub closed spec fn wf(&self) -> bool {
        self.pos <= self.samples@.len()
    }

    /// An empty buffer.
    pub fn new() -> (r: SampleBuffer)
        ensures
            r.wf(),
            r.pending() =~= Seq::<i32>::empty(),
    {
        SampleBuffer { samples: Vec::new(), pos: 0 }
    }

    /// Append one sample at the back of the queue.
    pub fn push(&mut self, sample: i32)
        requires
            old(self).wf(),
        ensures
            final(self).wf(),
            final(self).pending() =~= old(self).pending().push(sample),
    {
        self.samples.push(sample);
    }

    /// Append a stereo pair: left first, then right.
    pub fn push_stereo(&mut self, left: i32, right: i32)
        requires
            old(self).wf(),
        ensures
            final(self).wf(),
            final(self).pending() =~= old(self).pending().push(left).push(right),
    {
        self.samples.push(left);
        self.samples.push(right);
    }

    /// Hand out the oldest pending sample; `None` once drained.
    pub fn next_sample(&mut self) -> (r: Option<i32>)
        requires
            old(self).wf(),
        ensures
            final(self).wf(),
            old(self).pending().len() == 0 ==> r is None && final(self).pending()
                =~= old(self).pending(),
            old(self).pending().len() > 0 ==> r == Some(old(self).pending()[0])
                && final(self).pending() =~= old(self).pending().skip(1),
    {
        if self.pos < self.samples.len() {
            let s = self.samples[self.pos];
            self.pos = self.pos + 1;
            Some(s)
        } else {
            None
        }
    }

    /// Drop everything, pending and drained alike.
    pub fn clear(&mut self)
        ensures
            final(self).wf(),
            final(self).pending() =~= Seq::<i32>::empty(),
    {
        self.samples.clear();
        self.pos = 0;
    }

    /// Whether every pushed sample has been drained.
    pub fn is_empty(&self) -> (r: bool)
        requires
            self.wf(),
        ensures
            r <==> self.pending().len() == 0,
    {
        self.pos >= self.samples.len()
    }

    /// How many samples are still pending.
    pub fn remaining(&self) -> (r: usize)
        requires
            self.wf(),
        ensures
            r == self.pending().len(),
    {
        self.samples.len() - self.pos
    }
}

} // verus!
