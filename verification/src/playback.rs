//! The buffer between the mixer's chunks and an audio device that pulls
//! blocks of frames.

use vstd::prelude::*;

verus! {

/// Interleaved stereo samples on their way to the device. Chunks are added
/// behind; blocks are handed out from the front.
pub struct PlaybackBuffer<T> {
    samples: Vec<T>,
    consumed: usize,
    rate: usize,
}

impl<T> PlaybackBuffer<T> {
    #[verifier::type_invariant]
    spec fn inv(self) -> bool {
        self.consumed <= self.samples@.len()
    }

    /// The samples that wait to be handed out, oldest first.
    pub closed spec fn view(&self) -> Seq<T> {
        self.samples@.skip(self.consumed as int)
    }

    /// Number of samples that were handed out and are still held.
    pub closed spec fn spec_consumed(&self) -> nat {
        self.consumed as nat
    }

    /// Number of handed-out samples beyond which they are let go.
    pub closed spec fn spec_rate(&self) -> nat {
        self.rate as nat
    }

    /// An empty buffer for a device that runs at `rate` frames per second.
    pub fn new(rate: usize) -> (b: Self)
        ensures
            b@ == Seq::<T>::empty(),
            b.spec_consumed() == 0,
            b.spec_rate() == rate,
    {
        PlaybackBuffer { samples: Vec::new(), consumed: 0, rate }
    }

    /// Lets go of the samples that were handed out, once there are more of
    /// them than the device plays frames in a second. What waits is untouched.
    pub fn compact(&mut self) -> (done: bool)
        ensures
            done == (old(self).spec_consumed() > old(self).spec_rate()),
            final(self)@ == old(self)@,
            final(self).spec_rate() == old(self).spec_rate(),
            final(self).spec_consumed() == if done {
                0
            } else {
                old(self).spec_consumed()
            },
    {
        proof {
            use_type_invariant(&*self);
        }
        if self.consumed > self.rate {
            let consumed: usize = self.consumed;
            self.consumed = 0;
            let mut held: Vec<T> = Vec::new();
            core::mem::swap(&mut self.samples, &mut held);
            let rest: Vec<T> = held.split_off(consumed);
            assert(rest@.skip(0) =~= rest@);
            self.samples = rest;
            true
        } else {
            false
        }
    }

    /// Whether fewer than `n` whole frames wait.
    pub fn needs_more(&self, n: usize) -> (r: bool)
        ensures
            r == (self@.len() < 2 * n),
    {
        proof {
            use_type_invariant(self);
        }
        (self.samples.len() - self.consumed) / 2 < n
    }

    /// Number of samples that wait.
    pub fn waiting(&self) -> (r: usize)
        ensures
            r == self@.len(),
    {
        proof {
            use_type_invariant(self);
        }
        self.samples.len() - self.consumed
    }

    /// Opens the device's call for a block of `n` frames: lets go of what was
    /// handed out long ago, then tells whether a chunk is to be received
    /// before frames are handed out, which is when fewer than `n` wait.
    pub fn begin_block(&mut self, n: usize) -> (receive: bool)
        ensures
            receive == (old(self)@.len() < 2 * n),
            final(self)@ == old(self)@,
            final(self).spec_rate() == old(self).spec_rate(),
            final(self).spec_consumed() == if old(self).spec_consumed() > old(self).spec_rate() {
                0
            } else {
                old(self).spec_consumed()
            },
    {
        self.compact();
        self.needs_more(n)
    }

    /// Puts a chunk behind the samples that wait, and leaves `chunk` empty.
    pub fn append(&mut self, chunk: &mut Vec<T>)
        ensures
            final(self)@ == old(self)@ + old(chunk)@,
            final(chunk)@.len() == 0,
            final(self).spec_consumed() == old(self).spec_consumed(),
            final(self).spec_rate() == old(self).spec_rate(),
    {
        proof {
            use_type_invariant(&*self);
        }
        let consumed: usize = self.consumed;
        self.consumed = 0;
        let mut held: Vec<T> = Vec::new();
        core::mem::swap(&mut self.samples, &mut held);
        let ghost before = held@;
        held.append(chunk);
        assert((before + old(chunk)@).skip(consumed as int) =~= before.skip(consumed as int)
            + old(chunk)@);
        self.samples = held;
        self.consumed = consumed;
    }

}

impl<T: Copy> PlaybackBuffer<T> {
    /// Hands out frames to a device with one block for each channel: frame
    /// `i` goes to `outl[i]` and `outr[i]`. As many frames go out as the
    /// shorter block takes, or as wait in whole if those are fewer; the rest
    /// of the blocks is left as it was.
    pub fn emit(&mut self, outl: &mut [T], outr: &mut [T]) -> (n: usize)
        ensures
            n <= old(outl)@.len(),
            n <= old(outr)@.len(),
            n <= old(self)@.len() / 2,
            n == old(outl)@.len() || n == old(outr)@.len() || n == old(self)@.len() / 2,
            final(outl)@.len() == old(outl)@.len(),
            final(outr)@.len() == old(outr)@.len(),
            forall|i: int| 0 <= i < n ==> final(outl)@[i] == old(self)@[2 * i],
            forall|i: int| 0 <= i < n ==> final(outr)@[i] == old(self)@[2 * i + 1],
            forall|i: int| n <= i < final(outl)@.len() ==> final(outl)@[i] == old(outl)@[i],
            forall|i: int| n <= i < final(outr)@.len() ==> final(outr)@[i] == old(outr)@[i],
            final(self)@ == old(self)@.skip(2 * n),
            final(self).spec_consumed() == old(self).spec_consumed() + 2 * n,
            final(self).spec_rate() == old(self).spec_rate(),
    {
        proof {
            use_type_invariant(&*self);
        }
        let avail: usize = (self.samples.len() - self.consumed) / 2;
        let mut n: usize = outl.len();
        if outr.len() < n {
            n = outr.len();
        }
        if avail < n {
            n = avail;
        }
        let mut i: usize = 0;
        while i < n
            invariant
                i <= n,
                n <= outl@.len(),
                n <= outr@.len(),
                outl@.len() == old(outl)@.len(),
                outr@.len() == old(outr)@.len(),
                self.consumed + 2 * n <= self.samples.len(),
                forall|j: int| 0 <= j < i ==> outl@[j] == self.samples@[self.consumed + 2 * j],
                forall|j: int| 0 <= j < i ==> outr@[j] == self.samples@[self.consumed + 2 * j + 1],
                forall|j: int| i <= j < outl@.len() ==> outl@[j] == old(outl)@[j],
                forall|j: int| i <= j < outr@.len() ==> outr@[j] == old(outr)@[j],
            decreases n - i,
        {
            let src_off: usize = self.consumed + i * 2;
            outl[i] = self.samples[src_off];
            outr[i] = self.samples[src_off + 1];
            i += 1;
        }
        assert(self.samples@.skip(self.consumed as int).skip(2 * n as int) =~= self.samples@.skip(
            self.consumed + 2 * n,
        ));
        self.consumed = self.consumed + 2 * n;
        n
    }

    /// Hands out samples to a device that takes both channels interleaved in
    /// one block: as many as the block takes, or as wait if those are fewer.
    pub fn emit_interleaved(&mut self, data: &mut [T]) -> (n: usize)
        ensures
            n == if old(data)@.len() <= old(self)@.len() {
                old(data)@.len()
            } else {
                old(self)@.len()
            },
            final(data)@.len() == old(data)@.len(),
            forall|i: int| 0 <= i < n ==> final(data)@[i] == old(self)@[i],
            forall|i: int| n <= i < final(data)@.len() ==> final(data)@[i] == old(data)@[i],
            final(self)@ == old(self)@.skip(n as int),
            final(self).spec_consumed() == old(self).spec_consumed() + n,
            final(self).spec_rate() == old(self).spec_rate(),
    {
        proof {
            use_type_invariant(&*self);
        }
        let avail: usize = self.samples.len() - self.consumed;
        let mut n: usize = data.len();
        if avail < n {
            n = avail;
        }
        let mut i: usize = 0;
        while i < n
            invariant
                i <= n,
                n <= data@.len(),
                data@.len() == old(data)@.len(),
                self.consumed + n <= self.samples.len(),
                forall|j: int| 0 <= j < i ==> data@[j] == self.samples@[self.consumed + j],
                forall|j: int| i <= j < data@.len() ==> data@[j] == old(data)@[j],
            decreases n - i,
        {
            data[i] = self.samples[self.consumed + i];
            i += 1;
        }
        assert(self.samples@.skip(self.consumed as int).skip(n as int) =~= self.samples@.skip(
            self.consumed + n,
        ));
        self.consumed = self.consumed + n;
        n
    }
}

} // verus!
