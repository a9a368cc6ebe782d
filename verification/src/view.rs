//! Sample buffers as images that can be read.

use vstd::prelude::*;
use vstd::view::View as _;

use crate::color::{Pixel, Primitive};
use crate::error::Error;
use crate::flat::FlatSamples;
use crate::layout::SampleLayout;
use crate::samples::AsSamples;

verus! {

/// The layout with the channels that a pixel type has.
pub open spec fn pixel_layout<P: Pixel>(format: SampleLayout) -> SampleLayout {
    SampleLayout { channels: P::spec_channel_count(), ..format }
}

/// The samples of a pixel, one for each channel that its type has.
pub open spec fn pixel_samples<P: Pixel>(
    format: SampleLayout,
    samples: Seq<P::Subpixel>,
    x: int,
    y: int,
) -> Seq<P::Subpixel> {
    Seq::new(P::spec_channel_count() as nat, |c: int| samples[format.offset(c, x, y)])
}

/// A flat buffer that can be used as an image view.
///
/// This is a nearly trivial wrapper around a buffer but at least sanitizes by checking the buffer
/// length first and constraining the pixel type.
#[derive(Debug)]
pub struct View<Buffer, P: Pixel> where Buffer: AsSamples<Sample = P::Subpixel> {
    inner: FlatSamples<Buffer>,
    phantom: std::marker::PhantomData<P>,
}

impl<Buffer, P: Pixel> View<Buffer, P> where Buffer: AsSamples<Sample = P::Subpixel> {
    /// The viewed buffer.
    pub closed spec fn view(&self) -> FlatSamples<Buffer> {
        self.inner
    }

    /// Whether the buffer holds all channels of each pixel in bounds.
    ///
    /// Shrinking may hide some of the channels.
    pub open spec fn wf(&self) -> bool {
        &&& self@.format.channels <= P::spec_channel_count()
        &&& pixel_layout::<P>(self@.format).span() <= self@.samples.samples().len()
    }
}

impl<Buffer: Clone, P: Pixel> Clone for View<Buffer, P> where
    Buffer: AsSamples<Sample = P::Subpixel>,
 {
    fn clone(&self) -> (view: Self)
        ensures
            cloned(self@.samples, view@.samples),
            view@.format == self@.format,
            view@.color_hint == self@.color_hint,
    {
        View { inner: self.inner.clone(), phantom: std::marker::PhantomData }
    }
}

/// What is in bounds of a layout fits into a buffer that holds all channels of each pixel.
pub(crate) proof fn lemma_bounds_fit<P: Pixel>(format: SampleLayout, len: nat)
    requires
        format.channels <= P::spec_channel_count(),
        pixel_layout::<P>(format).span() <= len,
    ensures
        format.span() <= len,
        forall|c: int, x: int, y: int|
            {
                &&& 0 <= c < P::spec_channel_count()
                &&& 0 <= x < format.width
                &&& 0 <= y < format.height
            } ==> 0 <= #[trigger] format.offset(c, x, y) < len,
{
    let full = pixel_layout::<P>(format);
    crate::laws::law_shrinking_keeps_samples(full, format.channels, format.width, format.height);
    assert(full.shrunk(format.channels, format.width, format.height) == format);
    crate::laws::law_min_length_is_least(full, len);
    assert forall|c: int, x: int, y: int|
        {
            &&& 0 <= c < P::spec_channel_count()
            &&& 0 <= x < format.width
            &&& 0 <= y < format.height
        } implies 0 <= #[trigger] format.offset(c, x, y) < len by {
        assert(full.contains(c, x, y));
        assert(full.offset(c, x, y) == format.offset(c, x, y));
        crate::laws::lemma_offset_nonnegative(format, c, x, y);
    }
}

/// Collect the samples of a pixel from a buffer.
pub(crate) fn collect_pixel<P: Pixel>(
    image: &[P::Subpixel],
    format: &SampleLayout,
    x: u32,
    y: u32,
) -> (pixel: P)
    requires
        format.contains(0, x as int, y as int),
        format.channels <= P::spec_channel_count(),
        pixel_layout::<P>(*format).span() <= image@.len(),
    ensures
        pixel.samples() == pixel_samples::<P>(*format, image@, x as int, y as int),
{
    proof {
        lemma_bounds_fit::<P>(*format, image@.len());
        assert(image.len() <= usize::MAX);
        assert(format.offset(0, x as int, y as int) < image@.len());
    }
    let base_index: usize = format.in_bounds_index(0, x, y);
    let channels: usize = P::channel_count() as usize;

    let mut buffer: [P::Subpixel; 256] = [P::Subpixel::blank();256];
    for c in 0..channels
        invariant
            format.contains(0, x as int, y as int),
            channels == P::spec_channel_count(),
            base_index == format.offset(0, x as int, y as int),
            forall|c: int, x: int, y: int|
                {
                    &&& 0 <= c < P::spec_channel_count()
                    &&& 0 <= x < format.width
                    &&& 0 <= y < format.height
                } ==> 0 <= #[trigger] format.offset(c, x, y) < image@.len(),
            forall|i: int|
                0 <= i < c ==> #[trigger] buffer@[i] == image@[format.offset(
                    i,
                    x as int,
                    y as int,
                )],
    {
        assert(format.offset(c as int, x as int, y as int) == base_index + c
            * format.channel_stride);
        assert(image.len() <= usize::MAX);
        let index: usize = base_index + c * format.channel_stride;
        buffer[c] = image[index];
    }
    let samples: &[P::Subpixel] = &buffer[0..channels];
    assert(samples@ =~= pixel_samples::<P>(*format, image@, x as int, y as int));
    P::from_slice(samples)
}

impl<Buffer> FlatSamples<Buffer> {
    /// View this buffer as an image over some type of pixel.
    ///
    /// This ensures that all in-bounds coordinates refer to valid indices in the sample buffer. It
    /// also checks that the specified pixel format expects the same number of channels that are
    /// present in this buffer. Neither a larger nor a smaller number will be accepted. There is no
    /// automatic conversion.
    pub fn as_view<P>(&self) -> (view: Result<View<&[P::Subpixel], P>, Error>) where
        P: Pixel,
        Buffer: AsSamples<Sample = P::Subpixel>,

        ensures
            if self.format.channels != P::spec_channel_count() {
                view matches Err(e) && e == Error::WrongColor(P::spec_color_type())
            } else if self.format.span() > self.samples.samples().len() {
                view matches Err(e) && e == Error::TooLarge
            } else {
                &&& view matches Ok(v)
                &&& v.wf()
                &&& v@.samples@ == self.samples.samples()
                &&& v@.format == self.format
                &&& v@.color_hint == self.color_hint
            },
    {
        if self.format.channels != P::channel_count() {
            return Err(Error::WrongColor(P::color_type()));
        }
        let as_ref = self.samples.as_samples();
        if !self.format.fits(as_ref.len()) {
            return Err(Error::TooLarge);
        }
        Ok(
            View {
                inner: FlatSamples {
                    samples: as_ref,
                    format: self.format,
                    color_hint: self.color_hint,
                },
                phantom: std::marker::PhantomData,
            },
        )
    }
}

impl<Buffer, P: Pixel> View<Buffer, P> where Buffer: AsSamples<Sample = P::Subpixel> {
    /// Take out the sample buffer.
    ///
    /// Gives up the normalization invariants on the buffer format.
    pub fn into_inner(self) -> (flat: FlatSamples<Buffer>)
        ensures
            flat == self@,
    {
        self.inner
    }

    /// Get a reference on the inner sample descriptor.
    ///
    /// There is no mutable counterpart as modifying the buffer format, including strides and
    /// lengths, could invalidate the accessibility invariants of the `View`.
    pub fn flat(&self) -> (flat: &FlatSamples<Buffer>)
        ensures
            *flat == self@,
    {
        &self.inner
    }

    /// Get a reference on the inner buffer.
    ///
    /// There is no mutable counter part since it is not intended to allow you to reassign the
    /// buffer or otherwise change its size or properties.
    pub fn samples(&self) -> (samples: &Buffer)
        ensures
            *samples == self@.samples,
    {
        &self.inner.samples
    }

    /// Get a reference to a selected subpixel if it is in-bounds.
    ///
    /// This method will return `None` when the sample is out-of-bounds. All errors that could
    /// occur due to overflow have been eliminated while construction the `View`.
    pub fn get_sample(&self, channel: u8, x: u32, y: u32) -> (sample: Option<&P::Subpixel>)
        requires
            self.wf(),
        ensures
            match sample {
                Some(sample) => {
                    &&& self@.format.contains(channel as int, x as int, y as int)
                    &&& *sample == self@.samples.samples()[self@.format.offset(
                        channel as int,
                        x as int,
                        y as int,
                    )]
                },
                None => !self@.format.contains(channel as int, x as int, y as int),
            },
    {
        if !self.inner.in_bounds(channel, x, y) {
            return None;
        }
        proof {
            lemma_bounds_fit::<P>(self@.format, self@.samples.samples().len());
            self@.samples.lemma_length_fits();
        }
        let index: usize = self.inner.in_bounds_index(channel, x, y);
        // Always `Some(_)`.
        self.samples().as_samples().get(index)
    }

    /// Get the minimum length of a buffer such that all in-bounds samples have valid indices.
    ///
    /// See `FlatSamples::min_length`. This method will always succeed.
    pub fn min_length(&self) -> (length: usize)
        requires
            self.wf(),
        ensures
            length == self@.format.span(),
    {
        proof {
            lemma_bounds_fit::<P>(self@.format, self@.samples.samples().len());
            self@.samples.lemma_length_fits();
        }
        self.inner.min_length().unwrap()
    }

    /// Return the portion of the buffer that holds sample values.
    ///
    /// While this can not fail, as the validity of all coordinates has been validated during the
    /// conversion from `FlatSamples`, the resulting slice may still contain holes.
    pub fn image_slice(&self) -> (slice: &[P::Subpixel])
        requires
            self.wf(),
        ensures
            slice@ == self@.samples.samples().subrange(0, self@.format.span()),
    {
        proof {
            lemma_bounds_fit::<P>(self@.format, self@.samples.samples().len());
        }
        let length: usize = self.min_length();
        &self.inner.samples.as_samples()[0..length]
    }

    /// Shrink the inner image.
    ///
    /// The new dimensions will be the minimum of the previous dimensions. Since the set of
    /// in-bounds pixels afterwards is a subset of the current ones, this is allowed on a `View`.
    pub fn shrink_to(&mut self, channels: u8, width: u32, height: u32)
        requires
            old(self).wf(),
        ensures
            final(self).wf(),
            final(self)@.format == old(self)@.format.shrunk(channels, width, height),
            final(self)@.samples == old(self)@.samples,
            final(self)@.color_hint == old(self)@.color_hint,
    {
        proof {
            let full = pixel_layout::<P>(self@.format);
            crate::laws::law_shrinking_keeps_samples(full, full.channels, width, height);
            assert(pixel_layout::<P>(self@.format.shrunk(channels, width, height)) == full.shrunk(
                full.channels,
                width,
                height,
            ));
        }
        self.inner.shrink_to(channels, width, height)
    }

    /// The width and height of this image.
    pub fn dimensions(&self) -> (dimensions: (u32, u32))
        ensures
            dimensions == (self@.format.width, self@.format.height),
    {
        (self.inner.format.width, self.inner.format.height)
    }

    /// The bounding rectangle of this image.
    pub fn bounds(&self) -> (bounds: (u32, u32, u32, u32))
        ensures
            bounds == (0u32, self@.format.width, 0u32, self@.format.height),
    {
        let (w, h) = self.dimensions();
        (0, w, 0, h)
    }

    /// Returns true if this x, y coordinate is contained inside the image.
    pub fn in_bounds(&self, x: u32, y: u32) -> (inside: bool)
        ensures
            inside == (x < self@.format.width && y < self@.format.height),
    {
        let (w, h) = self.dimensions();
        x < w && y < h
    }

    /// Returns the pixel located at (x, y).
    ///
    /// The first sample of the pixel must be in bounds.
    pub fn get_pixel(&self, x: u32, y: u32) -> (pixel: P)
        requires
            self.wf(),
            self@.format.contains(0, x as int, y as int),
        ensures
            pixel.samples() == pixel_samples::<P>(
                self@.format,
                self@.samples.samples(),
                x as int,
                y as int,
            ),
    {
        collect_pixel(self.inner.samples.as_samples(), &self.inner.format, x, y)
    }

    /// Returns the underlying image, which is this one.
    pub fn inner(&self) -> (image: &Self)
        ensures
            *image == *self,
    {
        self
    }
}

} // verus!
