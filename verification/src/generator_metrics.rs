//! Window of the most recent generation samples. The samples themselves
//! (timings, timestamps) and the statistics over them belong to the caller.
use vstd::prelude::*;
use std::collections::VecDeque;

verus! {

/// The last `max_samples` samples added, oldest first.
pub struct GeneratorMetrics<S> {
    samples: VecDeque<S>,
    max_samples: usize,
}

impl<S> GeneratorMetrics<S> {
    /// Samples kept, oldest first.
    pub closed spec fn window(&self) -> Seq<S> {
        self.samples@
    }

    /// Number of samples kept at most.
    pub closed spec fn capacity(&self) -> usize {
        self.max_samples
    }

    /// No sample, keeping at most `max_samples`.
    pub fn new(max_samples: usize) -> (r: Self)
        ensures
            r.window() == Seq::<S>::empty(),
            r.capacity() == max_samples,
    {
        GeneratorMetrics { samples: VecDeque::with_capacity(max_samples), max_samples }
    }

    /// Appends `sample`, dropping the oldest sample when more than the
    /// capacity would be kept.
    pub fn add_sample(&mut self, sample: S)
        ensures
            final(self).capacity() == old(self).capacity(),
            final(self).window() == (if old(self).window().len() + 1 > old(self).capacity() {
                old(self).window().push(sample).drop_first()
            } else {
                old(self).window().push(sample)
            }),
    {
        self.samples.push_back(sample);
        if self.samples.len() > self.max_samples {
            let _ = self.samples.pop_front();
        }
    }

    /// Number of samples kept.
    pub fn len(&self) -> (r: usize)
        ensures
            r == self.window().len(),
    {
        self.samples.len()
    }

    /// Sample `i`, counting from the oldest.
    pub fn sample(&self, i: usize) -> (r: &S)
        requires
            i < self.window().len(),
        ensures
            *r == self.window()[i as int],
    {
        &self.samples[i]
    }

    /// Drops every sample.
    pub fn clear(&mut self)
        ensures
            final(self).window() == Seq::<S>::empty(),
            final(self).capacity() == old(self).capacity(),
    {
        self.samples.clear();
    }

    /// The window never holds more than the capacity, whatever is added.
    pub proof fn lemma_window_bounded(&self, sample: S)
        requires
            self.window().len() <= self.capacity(),
        ensures
            (if self.window().len() + 1 > self.capacity() {
                self.window().push(sample).drop_first()
            } else {
                self.window().push(sample)
            }).len() <= self.capacity(),
    {
    }
}

} // verus!
