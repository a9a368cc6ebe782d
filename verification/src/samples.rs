//! Linear containers of samples.

use vstd::prelude::*;

verus! {

/// A linear container whose contents can be read as a slice of samples.
///
/// Every call yields the same slice for as long as the container is not modified.
pub trait AsSamples {
    /// The type of a sample.
    type Sample;

    /// The samples in this container.
    spec fn samples(&self) -> Seq<Self::Sample>;

    /// A container in memory has no more samples than a `usize` can count.
    proof fn lemma_length_fits(&self)
        ensures
            self.samples().len() <= usize::MAX,
    ;

    /// Read the contents as a slice.
    fn as_samples(&self) -> (slice: &[Self::Sample])
        ensures
            slice@ == self.samples(),
    ;
}

/// A linear container whose contents can be modified as a slice of samples.
pub trait AsSamplesMut: AsSamples {
    /// Modify the contents as a slice.
    fn as_samples_mut(&mut self) -> (slice: &mut [Self::Sample])
        ensures
            slice@ == (*old(self)).samples(),
            (*final(self)).samples() == (*final(slice))@,
    ;
}

impl<T> AsSamples for [T] {
    type Sample = T;

    open spec fn samples(&self) -> Seq<T> {
        self@
    }

    proof fn lemma_length_fits(&self) {
        assert(self.len() <= usize::MAX);
    }

    fn as_samples(&self) -> (slice: &[T]) {
        self
    }
}

impl<T> AsSamplesMut for [T] {
    fn as_samples_mut(&mut self) -> (slice: &mut [T]) {
        self
    }
}

impl<T> AsSamples for Vec<T> {
    type Sample = T;

    open spec fn samples(&self) -> Seq<T> {
        self@
    }

    proof fn lemma_length_fits(&self) {
        assert(self.len() <= usize::MAX);
    }

    fn as_samples(&self) -> (slice: &[T]) {
        self.as_slice()
    }
}

impl<T> AsSamplesMut for Vec<T> {
    fn as_samples_mut(&mut self) -> (slice: &mut [T]) {
        self.as_mut_slice()
    }
}

impl<T, const N: usize> AsSamples for [T; N] {
    type Sample = T;

    open spec fn samples(&self) -> Seq<T> {
        self@
    }

    proof fn lemma_length_fits(&self) {
    }

    fn as_samples(&self) -> (slice: &[T]) {
        self.as_slice()
    }
}

impl<T, const N: usize> AsSamplesMut for [T; N] {
    fn as_samples_mut(&mut self) -> (slice: &mut [T]) {
        self
    }
}

impl<B: AsSamples + ?Sized> AsSamples for &B {
    type Sample = B::Sample;

    open spec fn samples(&self) -> Seq<B::Sample> {
        (**self).samples()
    }

    proof fn lemma_length_fits(&self) {
        (**self).lemma_length_fits();
    }

    fn as_samples(&self) -> (slice: &[B::Sample]) {
        (**self).as_samples()
    }
}

impl<B: AsSamples + ?Sized> AsSamples for &mut B {
    type Sample = B::Sample;

    open spec fn samples(&self) -> Seq<B::Sample> {
        (**self).samples()
    }

    proof fn lemma_length_fits(&self) {
        (**self).lemma_length_fits();
    }

    fn as_samples(&self) -> (slice: &[B::Sample]) {
        (**self).as_samples()
    }
}

impl<B: AsSamplesMut + ?Sized> AsSamplesMut for &mut B {
    fn as_samples_mut(&mut self) -> (slice: &mut [B::Sample]) {
        (**self).as_samples_mut()
    }
}

impl<B: AsSamples + ?Sized> AsSamples for Box<B> {
    type Sample = B::Sample;

    open spec fn samples(&self) -> Seq<B::Sample> {
        (**self).samples()
    }

    proof fn lemma_length_fits(&self) {
        (**self).lemma_length_fits();
    }

    fn as_samples(&self) -> (slice: &[B::Sample]) {
        (**self).as_samples()
    }
}

impl<B: AsSamplesMut + ?Sized> AsSamplesMut for Box<B> {
    fn as_samples_mut(&mut self) -> (slice: &mut [B::Sample]) {
        (**self).as_samples_mut()
    }
}

impl<B: AsSamples + ?Sized> AsSamples for std::rc::Rc<B> {
    type Sample = B::Sample;

    open spec fn samples(&self) -> Seq<B::Sample> {
        (**self).samples()
    }

    proof fn lemma_length_fits(&self) {
        (**self).lemma_length_fits();
    }

    fn as_samples(&self) -> (slice: &[B::Sample]) {
        (**self).as_samples()
    }
}

impl<B: AsSamples + ?Sized> AsSamples for std::sync::Arc<B> {
    type Sample = B::Sample;

    open spec fn samples(&self) -> Seq<B::Sample> {
        (**self).samples()
    }

    proof fn lemma_length_fits(&self) {
        (**self).lemma_length_fits();
    }

    fn as_samples(&self) -> (slice: &[B::Sample]) {
        (**self).as_samples()
    }
}

} // verus!
