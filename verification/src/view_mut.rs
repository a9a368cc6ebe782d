//! Sample buffers as images that can be modified.

use vstd::prelude::*;

use crate::color::{Blend, Pixel};
use crate::error::Error;
use crate::flat::FlatSamples;
use crate::layout::SampleLayout;
use crate::normal_form::NormalForm;
use crate::samples::{AsSamples, AsSamplesMut};
use crate::view::{collect_pixel, lemma_bounds_fit, pixel_layout, pixel_samples};

verus! {

/// The buffer after the adjacent samples of the pixel at (x, y) have been replaced.
pub open spec fn with_pixel<P: Pixel>(
    format: SampleLayout,
    samples: Seq<P::Subpixel>,
    x: int,
    y: int,
    pixel: Seq<P::Subpixel>,
) -> Seq<P::Subpixel> {
    let start = format.offset(0, x, y);
    samples.subrange(0, start) + pixel + samples.subrange(
        start + P::spec_channel_count(),
        samples.len() as int,
    )
}

/// A mutable owning version of a flat buffer.
///
/// While this wraps a buffer similar to `ImageBuffer`, this is mostly intended as a utility. The
/// library endorsed normalized representation is still `ImageBuffer`. There is no public way to
/// construct this with an owning buffer.
#[derive(Debug)]
pub struct ViewMut<Buffer, P: Pixel> where Buffer: AsSamplesMut<Sample = P::Subpixel> {
    inner: FlatSamples<Buffer>,
    phantom: std::marker::PhantomData<P>,
}

impl<Buffer, P: Pixel> ViewMut<Buffer, P> where Buffer: AsSamplesMut<Sample = P::Subpixel> {
    /// The viewed buffer.
    pub closed spec fn view(&self) -> FlatSamples<Buffer> {
        self.inner
    }

    /// Whether the buffer holds all channels of each pixel in bounds, next to each other and
    /// apart from those of other pixels.
    ///
    /// Shrinking may hide some of the channels.
    pub open spec fn wf(&self) -> bool {
        &&& self@.format.channels <= P::spec_channel_count()
        &&& pixel_layout::<P>(self@.format).normal(NormalForm::PixelPacked)
        &&& pixel_layout::<P>(self@.format).span() <= self@.samples.samples().len()
    }
}

impl<Buffer: Clone, P: Pixel> Clone for ViewMut<Buffer, P> where
    Buffer: AsSamplesMut<Sample = P::Subpixel>,
 {
    fn clone(&self) -> (view: Self)
        ensures
            cloned(self@.samples, view@.samples),
            view@.format == self@.format,
            view@.color_hint == self@.color_hint,
    {
        ViewMut { inner: self.inner.clone(), phantom: std::marker::PhantomData }
    }
}

/// The samples of a pixel whose channels are packed are a subslice of the buffer.
pub proof fn law_packed_pixel_is_a_subslice<P: Pixel>(
    format: SampleLayout,
    samples: Seq<P::Subpixel>,
    x: int,
    y: int,
)
    requires
        format.channels <= P::spec_channel_count(),
        format.channel_stride == 1,
        pixel_layout::<P>(format).span() <= samples.len(),
        format.contains(0, x, y),
    ensures
        0 <= format.offset(0, x, y),
        format.offset(0, x, y) + P::spec_channel_count() <= samples.len(),
        forall|c: int|
            #![trigger format.offset(c, x, y)]
            format.offset(c, x, y) == format.offset(0, x, y) + c,
        pixel_samples::<P>(format, samples, x, y) == samples.subrange(
            format.offset(0, x, y),
            format.offset(0, x, y) + P::spec_channel_count(),
        ),
{
    lemma_bounds_fit::<P>(format, samples.len());
    let start = format.offset(0, x, y);
    assert(format.offset(P::spec_channel_count() - 1, x, y) < samples.len());
    assert(pixel_samples::<P>(format, samples, x, y) =~= samples.subrange(
        start,
        start + P::spec_channel_count(),
    ));
}

/// A pixel that is written is the one that is read back.
pub proof fn law_written_pixel_is_read_back<P: Pixel>(
    format: SampleLayout,
    samples: Seq<P::Subpixel>,
    x: int,
    y: int,
    pixel: P,
)
    requires
        format.channels <= P::spec_channel_count(),
        pixel_layout::<P>(format).normal(NormalForm::PixelPacked),
        pixel_layout::<P>(format).span() <= samples.len(),
        format.contains(0, x, y),
    ensures
        pixel_samples::<P>(format, with_pixel::<P>(format, samples, x, y, pixel.samples()), x, y)
            == pixel.samples(),
{
    pixel.lemma_one_sample_per_channel();
    law_packed_pixel_is_a_subslice::<P>(format, samples, x, y);
    assert(pixel_samples::<P>(
        format,
        with_pixel::<P>(format, samples, x, y, pixel.samples()),
        x,
        y,
    ) =~= pixel.samples());
}

/// Writing a pixel changes no other pixel.
pub proof fn law_writing_keeps_other_pixels<P: Pixel>(
    format: SampleLayout,
    samples: Seq<P::Subpixel>,
    x: int,
    y: int,
    pixel: P,
    x2: int,
    y2: int,
)
    requires
        format.channels <= P::spec_channel_count(),
        pixel_layout::<P>(format).normal(NormalForm::PixelPacked),
        pixel_layout::<P>(format).span() <= samples.len(),
        format.contains(0, x, y),
        format.contains(0, x2, y2),
        (x, y) != (x2, y2),
    ensures
        pixel_samples::<P>(format, with_pixel::<P>(format, samples, x, y, pixel.samples()), x2, y2)
            == pixel_samples::<P>(format, samples, x2, y2),
{
    let after = with_pixel::<P>(format, samples, x, y, pixel.samples());
    let full = pixel_layout::<P>(format);
    let start = format.offset(0, x, y);
    pixel.lemma_one_sample_per_channel();
    law_packed_pixel_is_a_subslice::<P>(format, samples, x, y);
    law_packed_pixel_is_a_subslice::<P>(format, samples, x2, y2);
    assert forall|c: int| 0 <= c < P::spec_channel_count() implies after[#[trigger] format.offset(
        c,
        x2,
        y2,
    )] == samples[format.offset(c, x2, y2)] by {
        let at = format.offset(c, x2, y2);
        if start <= at < start + P::spec_channel_count() {
            let c2 = at - start;
            assert(format.offset(c2, x, y) == at);
            assert(full.offset(c, x2, y2) == full.offset(c2, x, y));
            crate::laws::law_unaliased_samples_are_distinct(full, c, x2, y2, c2, x, y);
        }
    }
    assert(pixel_samples::<P>(format, after, x2, y2) =~= pixel_samples::<P>(
        format,
        samples,
        x2,
        y2,
    ));
}

/// When a mutable view is no longer used, the buffer that it was made from holds the samples that
/// were last in the view.
pub proof fn law_view_writes_through<P: Pixel>(view: ViewMut<&mut [P::Subpixel], P>)
    requires
        has_resolved(view),
    ensures
        (*final(view@.samples))@ == view@.samples@,
{
}

/// Replace the contents of a slice by those of another of the same length.
fn copy_samples<T: Copy>(to: &mut [T], from: &[T])
    requires
        old(to)@.len() == from@.len(),
    ensures
        final(to)@ == from@,
{
    let len: usize = from.len();
    for i in 0..len
        invariant
            len == from@.len(),
            to@.len() == from@.len(),
            forall|j: int| 0 <= j < i ==> to@[j] == from@[j],
    {
        to[i] = from[i];
    }
    assert(to@ =~= from@);
}

impl<Buffer> FlatSamples<Buffer> {
    /// Interpret this buffer as a mutable image.
    ///
    /// To succeed, the pixels in this buffer may not alias each other and the samples of each
    /// pixel must be packed (i.e. `channel_stride` is `1`). The number of channels must be
    /// consistent with the channel count expected by the pixel format.
    ///
    /// This is similar to an `ImageBuffer` except it is a temporary view that is not normalized as
    /// strongly. To get an owning version, consider copying the data into an `ImageBuffer`. You
    /// can also try to convert this buffer inline, see `ImageBuffer::from_raw`.
    pub fn as_view_mut<P>(&mut self) -> (view: Result<ViewMut<&mut [P::Subpixel], P>, Error>) where
        P: Pixel,
        Buffer: AsSamplesMut<Sample = P::Subpixel>,

        ensures
            final(self).format == old(self).format,
            final(self).color_hint == old(self).color_hint,
            if !old(self).format.normal(NormalForm::PixelPacked) {
                &&& view matches Err(e)
                &&& e == Error::NormalFormRequired(NormalForm::PixelPacked)
                &&& *final(self) == *old(self)
            } else if old(self).format.channels != P::spec_channel_count() {
                &&& view matches Err(e)
                &&& e == Error::WrongColor(P::spec_color_type())
                &&& *final(self) == *old(self)
            } else if old(self).format.span() > old(self).samples.samples().len() {
                &&& view matches Err(e)
                &&& e == Error::TooLarge
                &&& *final(self) == *old(self)
            } else {
                &&& view matches Ok(v)
                &&& v.wf()
                &&& v@.samples@ == old(self).samples.samples()
                &&& v@.format == old(self).format
                &&& v@.color_hint == old(self).color_hint
                &&& final(self).samples.samples() == (*final(v@.samples))@
            },
    {
        if !self.format.is_normal(NormalForm::PixelPacked) {
            return Err(Error::NormalFormRequired(NormalForm::PixelPacked));
        }
        if self.format.channels != P::channel_count() {
            return Err(Error::WrongColor(P::color_type()));
        }
        if !self.format.fits(self.samples.as_samples().len()) {
            return Err(Error::TooLarge);
        }
        Ok(
            ViewMut {
                inner: FlatSamples {
                    samples: self.samples.as_samples_mut(),
                    format: self.format,
                    color_hint: self.color_hint,
                },
                phantom: std::marker::PhantomData,
            },
        )
    }
}

impl<Buffer, P: Pixel> ViewMut<Buffer, P> where Buffer: AsSamplesMut<Sample = P::Subpixel> {
    /// Take out the sample buffer.
    ///
    /// Gives up the normalization invariants on the buffer format.
    pub fn into_inner(self) -> (flat: FlatSamples<Buffer>)
        ensures
            flat == self@,
    {
        self.inner
    }

    /// Get a reference on the sample buffer descriptor.
    ///
    /// There is no mutable counterpart as modifying the buffer format, including strides and
    /// lengths, could invalidate the accessibility invariants of the `View`.
    pub fn flat(&self) -> (flat: &FlatSamples<Buffer>)
        ensures
            *flat == self@,
    {
        &self.inner
    }

    /// Get a reference on the inner buffer.
    ///
    /// There is no mutable counter part since it is not intended to allow you to reassign the
    /// buffer or otherwise change its size or properties. However, its contents can be accessed
    /// mutable through a slice with `image_mut_slice`.
    pub fn samples(&self) -> (samples: &Buffer)
        ensures
            *samples == self@.samples,
    {
        &self.inner.samples
    }

    /// Get the minimum length of a buffer such that all in-bounds samples have valid indices.
    ///
    /// See `FlatSamples::min_length`. This method will always succeed.
    pub fn min_length(&self) -> (length: usize)
        requires
            self.wf(),
        ensures
            length == self@.format.span(),
    {
        proof {
            lemma_bounds_fit::<P>(self@.format, self@.samples.samples().len());
            self@.samples.lemma_length_fits();
        }
        self.inner.min_length().unwrap()
    }

    /// Get a reference to a selected subpixel.
    ///
    /// This method will return `None` when the sample is out-of-bounds. All errors that could
    /// occur due to overflow have been eliminated while construction the `View`.
    pub fn get_sample(&self, channel: u8, x: u32, y: u32) -> (sample: Option<&P::Subpixel>)
        requires
            self.wf(),
        ensures
            match sample {
                Some(sample) => {
                    &&& self@.format.contains(channel as int, x as int, y as int)
                    &&& *sample == self@.samples.samples()[self@.format.offset(
                        channel as int,
                        x as int,
                        y as int,
                    )]
                },
                None => !self@.format.contains(channel as int, x as int, y as int),
            },
    {
        if !self.inner.in_bounds(channel, x, y) {
            return None;
        }
        proof {
            lemma_bounds_fit::<P>(self@.format, self@.samples.samples().len());
            self@.samples.lemma_length_fits();
        }
        let index: usize = self.inner.in_bounds_index(channel, x, y);
        // Always `Some(_)`.
        self.samples().as_samples().get(index)
    }

    /// Return the portion of the buffer that holds sample values.
    ///
    /// While this can not fail, as the validity of all coordinates has been validated during the
    /// conversion from `FlatSamples`, the resulting slice may still contain holes.
    pub fn image_slice(&self) -> (slice: &[P::Subpixel])
        requires
            self.wf(),
        ensures
            slice@ == self@.samples.samples().subrange(0, self@.format.span()),
    {
        proof {
            lemma_bounds_fit::<P>(self@.format, self@.samples.samples().len());
        }
        let length: usize = self.min_length();
        &self.inner.samples.as_samples()[0..length]
    }

    /// Shrink the inner image.
    ///
    /// The new dimensions will be the minimum of the previous dimensions. Since the set of
    /// in-bounds pixels afterwards is a subset of the current ones, this is allowed on a `View`.
    pub fn shrink_to(&mut self, channels: u8, width: u32, height: u32)
        requires
            old(self).wf(),
        ensures
            final(self).wf(),
            final(self)@.format == old(self)@.format.shrunk(channels, width, height),
            final(self)@.samples == old(self)@.samples,
            final(self)@.color_hint == old(self)@.color_hint,
    {
        proof {
            let full = pixel_layout::<P>(self@.format);
            crate::laws::law_shrinking_keeps_samples(full, full.channels, width, height);
            crate::laws::law_shrinking_keeps_unaliased(full, full.channels, width, height);
            assert(pixel_layout::<P>(self@.format.shrunk(channels, width, height)) == full.shrunk(
                full.channels,
                width,
                height,
            ));
        }
        self.inner.shrink_to(channels, width, height)
    }

    /// The width and height of this image.
    pub fn dimensions(&self) -> (dimensions: (u32, u32))
        ensures
            dimensions == (self@.format.width, self@.format.height),
    {
        (self.inner.format.width, self.inner.format.height)
    }

    /// The bounding rectangle of this image.
    pub fn bounds(&self) -> (bounds: (u32, u32, u32, u32))
        ensures
            bounds == (0u32, self@.format.width, 0u32, self@.format.height),
    {
        let (w, h) = self.dimensions();
        (0, w, 0, h)
    }

    /// Returns true if this x, y coordinate is contained inside the image.
    pub fn in_bounds(&self, x: u32, y: u32) -> (inside: bool)
        ensures
            inside == (x < self@.format.width && y < self@.format.height),
    {
        let (w, h) = self.dimensions();
        x < w && y < h
    }

    /// Returns the pixel located at (x, y).
    ///
    /// The first sample of the pixel must be in bounds.
    pub fn get_pixel(&self, x: u32, y: u32) -> (pixel: P)
        requires
            self.wf(),
            self@.format.contains(0, x as int, y as int),
        ensures
            pixel.samples() == pixel_samples::<P>(
                self@.format,
                self@.samples.samples(),
                x as int,
                y as int,
            ),
    {
        collect_pixel(self.inner.samples.as_samples(), &self.inner.format, x, y)
    }

    /// Returns the underlying image, which is this one.
    pub fn inner(&self) -> (image: &Self)
        ensures
            *image == *self,
    {
        self
    }

    /// Returns the underlying image, which is this one.
    pub fn inner_mut(&mut self) -> (image: &mut Self)
        ensures
            *image == *old(self),
            *final(self) == *final(image),
    {
        self
    }
}

impl<'a, P: Pixel> ViewMut<&'a mut [P::Subpixel], P> {
    /// Get a mutable reference to a selected sample.
    ///
    /// This method will return `None` when the sample is out-of-bounds. All errors that could
    /// occur due to overflow have been eliminated while construction the `View`.
    pub fn get_mut_sample(&mut self, channel: u8, x: u32, y: u32) -> (sample: Option<
        &mut P::Subpixel,
    >)
        requires
            old(self).wf(),
        ensures
            match sample {
                Some(sample) => {
                    let offset = old(self)@.format.offset(channel as int, x as int, y as int);
                    &&& old(self)@.format.contains(channel as int, x as int, y as int)
                    &&& *sample == old(self)@.samples@[offset]
                    &&& final(self).wf()
                    &&& final(self)@.samples@ == old(self)@.samples@.update(offset, *final(sample))
                    &&& final(self)@.format == old(self)@.format
                    &&& final(self)@.color_hint == old(self)@.color_hint
                    &&& (*final(final(self)@.samples))@ == (*final(old(self)@.samples))@
                },
                None => {
                    &&& !old(self)@.format.contains(channel as int, x as int, y as int)
                    &&& *final(self) == *old(self)
                },
            },
    {
        if !self.inner.in_bounds(channel, x, y) {
            return None;
        }
        proof {
            lemma_bounds_fit::<P>(self@.format, self@.samples@.len());
            self@.samples.lemma_length_fits();
        }
        let index: usize = self.inner.in_bounds_index(channel, x, y);
        Some(&mut self.inner.samples[index])
    }

    /// Return the mutable buffer that holds sample values.
    ///
    /// A slice keeps its length while it is modified, and so the view stays valid.
    pub fn image_mut_slice(&mut self) -> (slice: &mut [P::Subpixel])
        requires
            old(self).wf(),
        ensures
            ({
                let (samples, span) = (old(self)@.samples@, old(self)@.format.span());
                &&& slice@ == samples.subrange(0, span)
                &&& (*final(slice))@.len() == span ==> final(self).wf()
                &&& final(self)@.samples@ == (*final(slice))@ + samples.subrange(
                    span,
                    samples.len() as int,
                )
                &&& final(self)@.format == old(self)@.format
                &&& final(self)@.color_hint == old(self)@.color_hint
                &&& (*final(final(self)@.samples))@ == (*final(old(self)@.samples))@
            }),
    {
        proof {
            lemma_bounds_fit::<P>(self@.format, self@.samples@.len());
        }
        let length: usize = self.min_length();
        self.inner.samples.split_at_mut(length).0
    }

    /// Gets the samples of the pixel at (x, y), to be modified in place.
    ///
    /// A slice keeps its length while it is modified, and so the view stays valid. The first sample of the pixel must be in bounds.
    pub fn get_pixel_mut(&mut self, x: u32, y: u32) -> (pixel: &mut [P::Subpixel])
        requires
            old(self).wf(),
            old(self)@.format.contains(0, x as int, y as int),
        ensures
            pixel@ == pixel_samples::<P>(
                old(self)@.format,
                old(self)@.samples@,
                x as int,
                y as int,
            ),
            (*final(pixel))@.len() == P::spec_channel_count() ==> final(self).wf(),
            final(self)@.samples@ == with_pixel::<P>(
                old(self)@.format,
                old(self)@.samples@,
                x as int,
                y as int,
                (*final(pixel))@,
            ),
            final(self)@.format == old(self)@.format,
            final(self)@.color_hint == old(self)@.color_hint,
            (*final(final(self)@.samples))@ == (*final(old(self)@.samples))@,
    {
        proof {
            law_packed_pixel_is_a_subslice::<P>(self@.format, self@.samples@, x as int, y as int);
            self@.samples.lemma_length_fits();
        }
        let base_index: usize = self.inner.in_bounds_index(0, x, y);
        let channel_count: usize = P::channel_count() as usize;
        let (_, tail) = self.inner.samples.split_at_mut(base_index);
        let (pixel, _) = tail.split_at_mut(channel_count);
        pixel
    }

    /// Put a pixel at location (x, y).
    ///
    /// The first sample of the pixel must be in bounds.
    pub fn put_pixel(&mut self, x: u32, y: u32, pixel: P)
        requires
            old(self).wf(),
            old(self)@.format.contains(0, x as int, y as int),
        ensures
            final(self).wf(),
            final(self)@.samples@ == with_pixel::<P>(
                old(self)@.format,
                old(self)@.samples@,
                x as int,
                y as int,
                pixel.samples(),
            ),
            final(self)@.format == old(self)@.format,
            final(self)@.color_hint == old(self)@.color_hint,
            (*final(final(self)@.samples))@ == (*final(old(self)@.samples))@,
    {
        proof {
            pixel.lemma_one_sample_per_channel();
        }
        let samples = pixel.channels();
        copy_samples(self.get_pixel_mut(x, y), samples);
    }

    /// Put a pixel at location (x, y), taking into account what is below it.
    ///
    /// The first sample of the pixel must be in bounds.
    pub fn blend_pixel(&mut self, x: u32, y: u32, pixel: P) where P: Blend
        requires
            old(self).wf(),
            old(self)@.format.contains(0, x as int, y as int),
        ensures
            final(self).wf(),
            exists|below: P|
                {
                    &&& below.samples() == pixel_samples::<P>(
                        old(self)@.format,
                        old(self)@.samples@,
                        x as int,
                        y as int,
                    )
                    &&& final(self)@.samples@ == with_pixel::<P>(
                        old(self)@.format,
                        old(self)@.samples@,
                        x as int,
                        y as int,
                        (#[trigger] below.spec_blended(pixel)).samples(),
                    )
                },
            final(self)@.format == old(self)@.format,
            final(self)@.color_hint == old(self)@.color_hint,
            (*final(final(self)@.samples))@ == (*final(old(self)@.samples))@,
    {
        let mut blended: P = self.get_pixel(x, y);
        blended.blend(&pixel);
        self.put_pixel(x, y, blended);
    }
}

} // verus!
