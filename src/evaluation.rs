use vstd::prelude::*;

verus! {

/// Running count of a pass over a dataset: how many samples were seen and how
/// many of them the network classified correctly.
#[derive(Clone, Copy, Debug)]
pub struct EpochTally {
    correct: u64,
    samples: u64,
}

impl EpochTally {
    pub closed spec fn correct_count(self) -> nat {
        self.correct as nat
    }

    pub closed spec fn sample_count(self) -> nat {
        self.samples as nat
    }

    /// Never more correct answers than samples.
    pub closed spec fn wf(self) -> bool {
        self.correct <= self.samples
    }

    pub fn new() -> (r: EpochTally)
        ensures
            r.wf(),
            r.correct_count() == 0,
            r.sample_count() == 0,
    {
        EpochTally { correct: 0, samples: 0 }
    }

    /// Records one sample: the class the network predicted (none when the output
    /// layer is empty) and the true label. A tally that has counted `u64::MAX`
    /// samples is full and stays as it is.
    pub fn record(&mut self, predicted: Option<usize>, label: u8)
        requires
            old(self).wf(),
        ensures
            final(self).wf(),
            old(self).sample_count() < u64::MAX ==> final(self).sample_count() == old(
                self,
            ).sample_count() + 1 && final(self).correct_count() == old(self).correct_count()
                + if predicted == Some(label as usize) {
                1nat
            } else {
                0nat
            },
            old(self).sample_count() == u64::MAX ==> *final(self) == *old(self),
    {
        if self.samples == u64::MAX {
            return;
        }
        let hit = match predicted {
            Some(p) => p == label as usize,
            None => false,
        };
        if hit {
            self.correct = self.correct + 1;
        }
        self.samples = self.samples + 1;
    }

    pub fn correct(&self) -> (r: u64)
        ensures
            r == self.correct_count(),
    {
        self.correct
    }

    pub fn samples(&self) -> (r: u64)
        ensures
            r == self.sample_count(),
    {
        self.samples
    }
}

} // verus!
