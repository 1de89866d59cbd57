//! One mix cycle after another: a chunk from every grain stream that still
//! runs, gathered and mixed into one.

use vstd::prelude::*;

verus! {

/// Keeps track of which grain streams still run, and gathers the chunks of
/// the cycle under way.
pub struct Mixer<T> {
    live: Vec<bool>,
    bufs: Vec<Vec<T>>,
}

/// Whether all of `bufs` hold `len` samples.
pub open spec fn all_of_len<T>(bufs: Seq<Vec<T>>, len: nat) -> bool {
    forall|i: int| 0 <= i < bufs.len() ==> (#[trigger] bufs[i])@.len() == len
}

/// Whether any stream still runs.
pub open spec fn any_true(live: Seq<bool>) -> bool {
    exists|i: int| 0 <= i < live.len() && #[trigger] live[i]
}

impl<T> Mixer<T> {
    /// For each stream, whether it still runs.
    pub closed spec fn live(&self) -> Seq<bool> {
        self.live@
    }

    /// The chunks gathered in the cycle under way, in the order in which
    /// they came.
    pub closed spec fn gathered(&self) -> Seq<Vec<T>> {
        self.bufs@
    }

    /// A mixer for `n` streams, all running, with nothing gathered.
    pub fn new(n: usize) -> (m: Self)
        ensures
            m.live().len() == n,
            forall|i: int| 0 <= i < n ==> m.live()[i],
            m.gathered().len() == 0,
    {
        let mut live: Vec<bool> = Vec::new();
        let mut i: usize = 0;
        while i < n
            invariant
                i <= n,
                live@.len() == i,
                forall|j: int| 0 <= j < i ==> live@[j],
            decreases n - i,
        {
            live.push(true);
            i += 1;
        }
        Mixer { live, bufs: Vec::new() }
    }

    /// Whether stream `i` is one of the mixer's and still runs.
    pub fn is_live(&self, i: usize) -> (r: bool)
        ensures
            r == (i < self.live().len() && self.live()[i as int]),
    {
        i < self.live.len() && self.live[i]
    }

    /// Whether any stream still runs.
    pub fn any_live(&self) -> (r: bool)
        ensures
            r == any_true(self.live()),
    {
        let mut i: usize = 0;
        while i < self.live.len()
            invariant
                i <= self.live@.len(),
                forall|j: int| 0 <= j < i ==> !self.live@[j],
            decreases self.live@.len() - i,
        {
            if self.live[i] {
                return true;
            }
            i += 1;
        }
        false
    }

    /// Takes stream `i` out of the set of those that run, for good: its
    /// channel has closed. The chunks gathered stay.
    pub fn retire(&mut self, i: usize)
        ensures
            final(self).gathered() == old(self).gathered(),
            final(self).live() == if i < old(self).live().len() {
                old(self).live().update(i as int, false)
            } else {
                old(self).live()
            },
    {
        if i < self.live.len() {
            self.live[i] = false;
        }
    }

    /// Adds the chunk that a stream sent to those of the cycle under way.
    pub fn gather(&mut self, chunk: Vec<T>)
        ensures
            final(self).gathered() == old(self).gathered().push(chunk),
            final(self).live() == old(self).live(),
    {
        self.bufs.push(chunk);
    }

    /// Ends the cycle. Where chunks were gathered they are handed over to be
    /// averaged, and the next cycle starts with none. Where none came, every
    /// stream has closed, and the mixer has nothing more to give.
    pub fn finish_cycle(&mut self) -> (r: Option<Vec<Vec<T>>>)
        ensures
            final(self).live() == old(self).live(),
            final(self).gathered().len() == 0,
            match r {
                Some(bufs) => bufs@ == old(self).gathered() && bufs@.len() > 0,
                None => old(self).gathered().len() == 0,
            },
    {
        if self.bufs.len() == 0 {
            return None;
        }
        let mut bufs: Vec<Vec<T>> = Vec::new();
        core::mem::swap(&mut self.bufs, &mut bufs);
        Some(bufs)
    }
}

/// Number of samples in the mix of `bufs`: that of each of them, where there
/// is at least one and all are of one length.
pub fn common_len<T>(bufs: &Vec<Vec<T>>) -> (r: Option<usize>)
    ensures
        match r {
            Some(len) => bufs@.len() > 0 && all_of_len(bufs@, len as nat),
            None => bufs@.len() == 0 || !all_of_len(bufs@, bufs@[0]@.len()),
        },
{
    if bufs.len() == 0 {
        return None;
    }
    let len: usize = bufs[0].len();
    let mut i: usize = 1;
    while i < bufs.len()
        invariant
            1 <= i <= bufs@.len(),
            len == bufs@[0]@.len(),
            forall|j: int| 0 <= j < i ==> (#[trigger] bufs@[j])@.len() == len,
        decreases bufs@.len() - i,
    {
        if bufs[i].len() != len {
            return None;
        }
        i += 1;
    }
    Some(len)
}

/// The samples at place `i`, one from each of `bufs` in their order.
pub open spec fn column<T>(bufs: Seq<Vec<T>>, i: int) -> Seq<T> {
    Seq::new(bufs.len(), |k: int| bufs[k]@[i])
}

/// Whether `out` is what `mean` may give for the samples `col`.
pub open spec fn is_mean_of<T, F: Fn(&Vec<T>) -> T>(mean: F, col: Seq<T>, out: T) -> bool {
    exists|v: &Vec<T>| v@ == col && #[trigger] call_ensures(mean, (v,), out)
}

/// A mix of one is the chunk itself, whenever `mean` gives back the one
/// sample that it is handed.
pub proof fn lemma_mix_of_one<T, F: Fn(&Vec<T>) -> T>(mean: F, bufs: Seq<Vec<T>>, mixed: Seq<T>)
    requires
        bufs.len() == 1,
        mixed.len() == bufs[0]@.len(),
        forall|i: int|
            0 <= i < mixed.len() ==> is_mean_of(mean, column(bufs, i), #[trigger] mixed[i]),
        forall|v: &Vec<T>, out: T|
            v@.len() == 1 && #[trigger] call_ensures(mean, (v,), out) ==> out == v@[0],
    ensures
        mixed == bufs[0]@,
{
    assert forall|i: int| 0 <= i < mixed.len() implies mixed[i] == bufs[0]@[i] by {
        assert(is_mean_of(mean, column(bufs, i), mixed[i]));
        let v = choose|v: &Vec<T>|
            v@ == column(bufs, i) && #[trigger] call_ensures(mean, (v,), mixed[i]);
        assert(v@.len() == 1);
        assert(v@[0] == bufs[0]@[i]);
    }
    assert(mixed =~= bufs[0]@);
}

/// Mixes chunks of one length into one chunk of that length: each of its
/// samples is the mean of the samples at its place, one from each chunk in
/// their order. The mean of a handful of samples is taken by `mean`, which
/// knows their type.
pub fn mix<T: Copy, F: Fn(&Vec<T>) -> T>(bufs: &Vec<Vec<T>>, mean: F) -> (mixed: Vec<T>)
    requires
        bufs@.len() > 0,
        all_of_len(bufs@, bufs@[0]@.len()),
        forall|col: &Vec<T>| col@.len() == bufs@.len() ==> call_requires(mean, (col,)),
    ensures
        mixed@.len() == bufs@[0]@.len(),
        forall|i: int|
            0 <= i < mixed@.len() ==> is_mean_of(mean, column(bufs@, i), #[trigger] mixed@[i]),
{
    let n: usize = bufs.len();
    let len: usize = bufs[0].len();
    let mut mixed: Vec<T> = Vec::new();
    let mut col: Vec<T> = Vec::new();
    let mut i: usize = 0;
    while i < len
        invariant
            i <= len,
            n == bufs@.len(),
            n > 0,
            len == bufs@[0]@.len(),
            all_of_len(bufs@, len as nat),
            forall|col: &Vec<T>| col@.len() == bufs@.len() ==> call_requires(mean, (col,)),
            mixed@.len() == i,
            forall|j: int|
                0 <= j < i ==> is_mean_of(mean, column(bufs@, j), #[trigger] mixed@[j]),
        decreases len - i,
    {
        col.clear();
        let mut k: usize = 0;
        while k < n
            invariant
                k <= n,
                n == bufs@.len(),
                i < len,
                all_of_len(bufs@, len as nat),
                col@.len() == k,
                forall|m: int| 0 <= m < k ==> col@[m] == (#[trigger] bufs@[m])@[i as int],
            decreases n - k,
        {
            col.push(bufs[k][i]);
            k += 1;
        }
        assert(col@ =~= column(bufs@, i as int));
        let s: T = mean(&col);
        mixed.push(s);
        i += 1;
    }
    mixed
}

} // verus!
