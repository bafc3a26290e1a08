use vstd::prelude::*;

verus! {

/// Collects incoming samples and hands them out in whole frames of a fixed
/// length, oldest first; what does not fill a frame waits for more samples.
pub struct FrameBuffer {
    buf: Vec<i16>,
}

/// The `i`-th frame of length `len` of a sample sequence.
pub open spec fn frame_of(all: Seq<i16>, len: nat, i: int) -> Seq<i16> {
    all.subrange(i * len, i * len + len)
}

impl FrameBuffer {
    /// The samples waiting for a frame to fill.
    pub closed spec fn pending(&self) -> Seq<i16> {
        self.buf@
    }

    /// An empty buffer.
    pub fn with_capacity(capacity: usize) -> (b: Self)
        ensures
            b.pending() == Seq::<i16>::empty(),
    {
        FrameBuffer { buf: Vec::with_capacity(capacity) }
    }

    /// Appends the samples and takes out every whole frame now available, in
    /// order; the rest, shorter than a frame, stays.
    pub fn push(&mut self, samples: &[i16], frame_len: usize) -> (frames: Vec<Vec<i16>>)
        requires
            frame_len > 0,
        ensures
            ({
                let all = old(self).pending() + samples@;
                &&& frames@.len() == all.len() as int / frame_len as int
                &&& forall|i: int|
                    0 <= i < frames@.len() ==> #[trigger] frames@[i]@ == frame_of(
                        all,
                        frame_len as nat,
                        i,
                    )
                &&& final(self).pending() == all.skip(frames@.len() * frame_len)
                &&& final(self).pending().len() < frame_len
                &&& frames@.len() * frame_len + final(self).pending().len() == all.len()
            }),
    {
        let ghost all = self.buf@ + samples@;
        let mut i: usize = 0;
        while i < samples.len()
            invariant
                i <= samples@.len(),
                self.buf@ == old(self).buf@ + samples@.take(i as int),
            decreases samples@.len() - i,
        {
            self.buf.push(samples[i]);
            assert(samples@.take(i + 1) =~= samples@.take(i as int).push(samples@[i as int]));
            i = i + 1;
        }
        assert(samples@.take(samples@.len() as int) =~= samples@);
        let n = self.buf.len();
        let mut frames: Vec<Vec<i16>> = Vec::new();
        let mut start: usize = 0;
        assert(0 * frame_len == 0) by (nonlinear_arith);
        while n - start >= frame_len
            invariant
                frame_len > 0,
                n == self.buf@.len(),
                self.buf@ == all,
                start <= n,
                start == frames@.len() * frame_len,
                forall|j: int|
                    0 <= j < frames@.len() ==> #[trigger] frames@[j]@ == frame_of(
                        all,
                        frame_len as nat,
                        j,
                    ),
            decreases n - start,
        {
            let frame = vstd::slice::slice_to_vec(
                vstd::slice::slice_subrange(self.buf.as_slice(), start, start + frame_len),
            );
            proof {
                assert(frames@.len() * frame_len + frame_len == (frames@.len() + 1) * frame_len)
                    by (nonlinear_arith);
            }
            frames.push(frame);
            start = start + frame_len;
        }
        proof {
            vstd::arithmetic::div_mod::lemma_fundamental_div_mod_converse_div(
                n as int,
                frame_len as int,
                frames@.len() as int,
                (n - start) as int,
            );
        }
        self.buf = self.buf.split_off(start);
        assert(self.buf@ =~= all.skip(start as int));
        frames
    }

    /// Drops the waiting samples.
    pub fn clear(&mut self)
        ensures
            final(self).pending() == Seq::<i16>::empty(),
    {
        self.buf.clear();
    }
}

} // verus!
