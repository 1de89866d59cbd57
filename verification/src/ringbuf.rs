//! A bounded buffer of lines that are let through only while a trigger is on.

use std::collections::VecDeque;
use vstd::prelude::*;

verus! {

/// The last lines that came in, and whether lines are held back for now.
pub struct Ring<T> {
    ring: VecDeque<T>,
    n_entries: usize,
    quiet: bool,
}

/// What is kept of `entries` when at most `n_entries` may stay: the last of
/// them.
pub open spec fn kept<T>(entries: Seq<T>, n_entries: nat) -> Seq<T> {
    if entries.len() > n_entries {
        entries.skip(entries.len() - n_entries)
    } else {
        entries
    }
}

impl<T> Ring<T> {
    #[verifier::type_invariant]
    spec fn inv(self) -> bool {
        self.ring@.len() <= self.n_entries
    }

    /// The entries held, oldest first.
    pub closed spec fn view(&self) -> Seq<T> {
        self.ring@
    }

    /// Number of entries that may stay.
    pub closed spec fn spec_n_entries(&self) -> nat {
        self.n_entries as nat
    }

    /// Whether lines are held back.
    pub closed spec fn spec_quiet(&self) -> bool {
        self.quiet
    }

    /// An empty buffer for `n_entries` lines, which holds lines back until
    /// the trigger comes on.
    pub fn new(n_entries: usize) -> (r: Self)
        ensures
            r@ == Seq::<T>::empty(),
            r.spec_n_entries() == n_entries,
            r.spec_quiet(),
    {
        Ring { ring: VecDeque::new(), n_entries, quiet: true }
    }

    #[verifier::when_used_as_spec(spec_quiet)]
    pub fn quiet(&self) -> (r: bool)
        ensures
            r == self.spec_quiet(),
    {
        self.quiet
    }

    /// Number of entries held, which is never more than may stay.
    pub fn len(&self) -> (r: usize)
        ensures
            r == self@.len(),
            r <= self.spec_n_entries(),
    {
        proof {
            use_type_invariant(self);
        }
        self.ring.len()
    }

    pub fn get(&self, i: usize) -> (r: &T)
        requires
            i < self@.len(),
        ensures
            *r == self@[i as int],
    {
        &self.ring[i]
    }

    /// Takes a line in behind the others and lets the oldest go where there
    /// are more than may stay.
    pub fn push(&mut self, entry: T)
        ensures
            final(self)@ == kept(old(self)@.push(entry), old(self).spec_n_entries()),
            final(self).spec_n_entries() == old(self).spec_n_entries(),
            final(self).spec_quiet() == old(self).spec_quiet(),
    {
        proof {
            use_type_invariant(&*self);
        }
        let mut ring: VecDeque<T> = VecDeque::new();
        core::mem::swap(&mut self.ring, &mut ring);
        ring.push_back(entry);
        if ring.len() > self.n_entries {
            let _ = ring.pop_front();
        }
        self.ring = ring;
    }

    /// Follows the trigger: lines are held back while it is off. Tells
    /// whether the lines held are to be shown now, which is when it is on.
    pub fn set_trigger(&mut self, trig: bool) -> (show: bool)
        ensures
            show == trig,
            final(self).spec_quiet() == !trig,
            final(self)@ == old(self)@,
            final(self).spec_n_entries() == old(self).spec_n_entries(),
    {
        proof {
            use_type_invariant(&*self);
        }
        self.quiet = !trig;
        trig
    }
}

} // verus!
