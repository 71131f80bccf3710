use vstd::prelude::*;

verus! {

/// A finite script of samples that is read front to back.
///
/// Whoever owns a sampler fills the stream; construction then draws from it
/// one sample at a time, so the order of the draws is fixed by the order of
/// the script.
pub struct SampleStream<S> {
    samples: Vec<S>,
    drawn: usize,
}

impl<S> View for SampleStream<S> {
    type V = Seq<S>;

    /// The samples that have not been drawn yet, next one first.
    closed spec fn view(&self) -> Seq<S> {
        self.samples@.skip(self.drawn as int)
    }
}

impl<S> SampleStream<S> {
    #[verifier::type_invariant]
    spec fn inv(&self) -> bool {
        self.drawn <= self.samples@.len()
    }
}

impl<S: Copy> SampleStream<S> {
    /// A stream that will hand out `samples` in index order.
    pub fn new(samples: Vec<S>) -> (stream: Self)
        ensures
            stream@ == samples@,
    {
        SampleStream { samples, drawn: 0 }
    }

    /// The number of samples that can still be drawn.
    pub fn remaining(&self) -> (n: usize)
        ensures
            n == self@.len(),
    {
        proof {
            use_type_invariant(self);
        }
        self.samples.len() - self.drawn
    }

    /// Takes the next sample off the front of the stream.
    pub fn draw(&mut self) -> (sample: S)
        requires
            old(self)@.len() > 0,
        ensures
            sample == old(self)@[0],
            final(self)@ == old(self)@.skip(1),
    {
        proof {
            use_type_invariant(&*self);
        }
        let len: usize = self.samples.len();
        assert(self.drawn < len);
        let sample: S = self.samples[self.drawn];
        self.drawn = self.drawn + 1;
        sample
    }
}

} // verus!
