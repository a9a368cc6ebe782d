//! Sample buffers together with a description of their layout.

use vstd::prelude::*;

use crate::color::{ColorType, Pixel};
use crate::error::Error;
use crate::image_buffer::ImageBuffer;
use crate::layout::SampleLayout;
use crate::normal_form::NormalForm;
use crate::samples::{AsSamples, AsSamplesMut};

verus! {

/// A flat buffer over a (multi channel) image.
///
/// In contrast to `ImageBuffer`, this representation of a sample collection is much more lenient
/// in the layout thereof. In particular, it also allows grouping by color planes instead of by
/// pixel, at least for the purpose of a `View`.
///
/// Note that the strides need not conform to the assumption that constructed indices actually
/// refer inside the underlying buffer but return values of library functions will always guarantee
/// this. To manually make this check use `fits`.
#[derive(Debug)]
pub struct FlatSamples<Buffer> {
    /// Underlying linear container holding sample values.
    pub samples: Buffer,
    /// A description of the buffer format.
    pub format: SampleLayout,
    /// Supplementary color information.
    ///
    /// You may keep this as `None` in most cases. This is NOT checked in `View` or other
    /// converters. It is intended mainly as a way for types that convert to this buffer type to
    /// attach their otherwise static color information. A dynamic image representation could
    /// however use this to resolve representational ambiguities such as the order of RGB channels.
    pub color_hint: Option<ColorType>,
}

impl<Buffer: Clone> Clone for FlatSamples<Buffer> {
    fn clone(&self) -> (flat: Self)
        ensures
            cloned(self.samples, flat.samples),
            flat.format == self.format,
            flat.color_hint == self.color_hint,
    {
        FlatSamples {
            samples: self.samples.clone(),
            format: self.format,
            color_hint: self.color_hint,
        }
    }
}

impl<Buffer> FlatSamples<Buffer> {
    /// Get the strides for indexing matrix-like `[(c, w, h)]`.
    ///
    /// For a row-major layout with grouped samples, this tuple is strictly increasing, unless
    /// there is only one channel or only one column.
    pub fn strides_cwh(&self) -> (strides: (usize, usize, usize))
        ensures
            strides == (
                self.format.channel_stride,
                self.format.width_stride,
                self.format.height_stride,
            ),
    {
        self.format.strides_cwh()
    }

    /// Get the dimensions (channels, width, height).
    ///
    /// The interface is optimized for use with `strides_cwh` instead. The channel extent will be
    /// before width and height.
    pub fn extents(&self) -> (extents: (usize, usize, usize))
        ensures
            extents.0 == self.format.channels,
            extents.1 == self.format.width,
            extents.2 == self.format.height,
    {
        self.format.extents()
    }

    /// Tuple of bounds in the order of coordinate inputs.
    ///
    /// This function should be used whenever working with image coordinates opposed to buffer
    /// coordinates.
    pub fn bounds(&self) -> (bounds: (u8, u32, u32))
        ensures
            bounds == (self.format.channels, self.format.width, self.format.height),
    {
        self.format.bounds()
    }

    /// Get a reference based version.
    pub fn as_ref(&self) -> (flat: FlatSamples<&[Buffer::Sample]>) where Buffer: AsSamples
        ensures
            flat.samples@ == self.samples.samples(),
            flat.format == self.format,
            flat.color_hint == self.color_hint,
    {
        FlatSamples {
            samples: self.samples.as_samples(),
            format: self.format,
            color_hint: self.color_hint,
        }
    }

    /// Get a mutable reference based version.
    pub fn as_mut(&mut self) -> (flat: FlatSamples<&mut [Buffer::Sample]>) where
        Buffer: AsSamplesMut,

        ensures
            flat.samples@ == old(self).samples.samples(),
            flat.format == old(self).format,
            flat.color_hint == old(self).color_hint,
            final(self).samples.samples() == (*final(flat.samples))@,
            final(self).format == old(self).format,
            final(self).color_hint == old(self).color_hint,
    {
        FlatSamples {
            samples: self.samples.as_samples_mut(),
            format: self.format,
            color_hint: self.color_hint,
        }
    }

    /// Copy the data into an owned vector.
    pub fn to_vec(&self) -> (flat: FlatSamples<Vec<Buffer::Sample>>) where
        Buffer: AsSamples,
        Buffer::Sample: Clone,

        ensures
            flat.samples@.len() == self.samples.samples().len(),
            forall|i: int|
                0 <= i < flat.samples@.len() ==> cloned(
                    self.samples.samples()[i],
                    #[trigger] flat.samples@[i],
                ),
            flat.format == self.format,
            flat.color_hint == self.color_hint,
    {
        let slice = self.samples.as_samples();
        let mut samples: Vec<Buffer::Sample> = Vec::with_capacity(slice.len());
        for i in 0..slice.len()
            invariant
                slice@ == self.samples.samples(),
                samples@.len() == i,
                forall|j: int| 0 <= j < i ==> cloned(slice@[j], #[trigger] samples@[j]),
        {
            samples.push(slice[i].clone());
        }
        FlatSamples { samples, format: self.format, color_hint: self.color_hint }
    }

    /// View the samples as a slice.
    ///
    /// The slice is not limited to the region of the image and not all sample indices are valid
    /// indices into this buffer. See `image_mut_slice` as an alternative.
    pub fn as_slice(&self) -> (slice: &[Buffer::Sample]) where Buffer: AsSamples
        ensures
            slice@ == self.samples.samples(),
    {
        self.samples.as_samples()
    }

    /// View the samples as a slice.
    ///
    /// The slice is not limited to the region of the image and not all sample indices are valid
    /// indices into this buffer. See `image_mut_slice` as an alternative.
    pub fn as_mut_slice(&mut self) -> (slice: &mut [Buffer::Sample]) where Buffer: AsSamplesMut
        ensures
            slice@ == old(self).samples.samples(),
            final(self).samples.samples() == (*final(slice))@,
            final(self).format == old(self).format,
            final(self).color_hint == old(self).color_hint,
    {
        self.samples.as_samples_mut()
    }

    /// Return the portion of the buffer that holds sample values.
    ///
    /// This may fail when the coordinates in this image are either out-of-bounds of the underlying
    /// buffer or can not be represented. Note that the slice may have holes that do not correspond
    /// to any sample in the image represented by it.
    pub fn image_slice(&self) -> (slice: Option<&[Buffer::Sample]>) where Buffer: AsSamples
        ensures
            match slice {
                Some(slice) => {
                    &&& self.format.span() <= self.samples.samples().len()
                    &&& slice@ == self.samples.samples().subrange(0, self.format.span())
                },
                None => self.format.span() > self.samples.samples().len(),
            },
    {
        proof {
            self.samples.lemma_length_fits();
        }
        let min_length: usize = match self.min_length() {
            None => return None,
            Some(index) => index,
        };

        let slice = self.samples.as_samples();
        if slice.len() < min_length {
            return None;
        }
        Some(&slice[0..min_length])
    }

    /// Mutable portion of the buffer that holds sample values.
    pub fn image_mut_slice(&mut self) -> (slice: Option<&mut [Buffer::Sample]>) where
        Buffer: AsSamplesMut,

        ensures
            match slice {
                Some(slice) => {
                    let (samples, span) = (old(self).samples.samples(), old(self).format.span());
                    &&& span <= samples.len()
                    &&& slice@ == samples.subrange(0, span)
                    &&& final(self).samples.samples() == (*final(slice))@ + samples.subrange(
                        span,
                        samples.len() as int,
                    )
                    &&& final(self).format == old(self).format
                    &&& final(self).color_hint == old(self).color_hint
                },
                None => {
                    &&& old(self).format.span() > old(self).samples.samples().len()
                    &&& *final(self) == *old(self)
                },
            },
    {
        proof {
            self.samples.lemma_length_fits();
        }
        let min_length: usize = match self.min_length() {
            None => return None,
            Some(index) => index,
        };

        if self.samples.as_samples().len() < min_length {
            return None;
        }
        let slice = self.samples.as_samples_mut();
        Some(slice.split_at_mut(min_length).0)
    }

    /// Move the data into an image buffer.
    ///
    /// This does **not** convert the image format. The buffer needs to be in packed row-major form
    /// before calling this function. In case of an error, returns the buffer again so that it does
    /// not release any allocation.
    pub fn try_into_buffer<P>(self) -> (image: Result<ImageBuffer<P, Buffer>, (Error, Self)>) where
        P: Pixel,
        Buffer: AsSamples<Sample = P::Subpixel>,

        ensures
            if !self.format.normal(NormalForm::RowMajorPacked) {
                image matches Err(e) && e == (
                    Error::NormalFormRequired(NormalForm::RowMajorPacked),
                    self,
                )
            } else if self.format.channels != P::spec_channel_count() {
                image matches Err(e) && e == (Error::WrongColor(P::spec_color_type()), self)
            } else if self.format.span() > self.samples.samples().len() {
                image matches Err(e) && e == (Error::TooLarge, self)
            } else {
                &&& image matches Ok(buffer)
                &&& buffer.wf()
                &&& buffer.spec_width() == self.format.width
                &&& buffer.spec_height() == self.format.height
                &&& buffer@ == self.samples
                &&& forall|c: int, x: int, y: int| #[trigger]
                    buffer.position(c, x, y) == self.format.offset(c, x, y)
            },
    {
        if !self.is_normal(NormalForm::RowMajorPacked) {
            return Err((Error::NormalFormRequired(NormalForm::RowMajorPacked), self));
        }
        if self.format.channels != P::channel_count() {
            return Err((Error::WrongColor(P::color_type()), self));
        }
        if !self.fits(self.samples.as_samples().len()) {
            return Err((Error::TooLarge, self));
        }
        proof {
            crate::laws::law_packed_min_length(self.format);
        }
        let ghost format = self.format;
        match ImageBuffer::from_raw(self.format.width, self.format.height, self.samples) {
            Some(buffer) => {
                proof {
                    assert forall|c: int, x: int, y: int| #[trigger]
                        buffer.position(c, x, y) == format.offset(c, x, y) by {
                        crate::laws::law_row_major_positions(format, c, x, y);
                    }
                }
                Ok(buffer)
            },
            None => {
                proof {
                    assert(false);
                }
                vstd::pervasive::unreached()
            },
        }
    }

    /// Get the minimum length of a buffer such that all in-bounds samples have valid indices.
    ///
    /// See `SampleLayout::min_length`. `None` if that length does not fit into a `usize`.
    pub fn min_length(&self) -> (length: Option<usize>)
        ensures
            self.format.span() <= usize::MAX ==> length == Some(self.format.span() as usize),
            self.format.span() > usize::MAX ==> length is None,
    {
        self.format.min_length()
    }

    /// Check if the buffer is large enough.
    pub fn fits(&self, len: usize) -> (fits: bool)
        ensures
            fits == (self.format.span() <= len),
    {
        self.format.fits(len)
    }

    /// If there are any samples aliasing each other.
    ///
    /// If this is not the case, it would always be safe to allow mutable access to two different
    /// samples at the same time. See `SampleLayout::has_aliased_samples`.
    pub fn has_aliased_samples(&self) -> (aliased: bool)
        ensures
            aliased == !self.format.unaliased(),
    {
        self.format.has_aliased_samples()
    }

    /// Check if a buffer fulfills the requirements of a normal form.
    ///
    /// Certain conversions have preconditions on the structure of the sample buffer that are not
    /// captured (by design) by the type system. These are then checked before the conversion. Such
    /// checks can all be done in constant time and will not inspect the buffer content. You can
    /// perform these checks yourself when the conversion is not required at this moment but maybe
    /// still performed later.
    pub fn is_normal(&self, form: NormalForm) -> (normal: bool)
        ensures
            normal == self.format.normal(form),
    {
        self.format.is_normal(form)
    }

    /// Check that the pixel and the channel index are in bounds.
    pub fn in_bounds(&self, channel: u8, x: u32, y: u32) -> (inside: bool)
        ensures
            inside == self.format.contains(channel as int, x as int, y as int),
    {
        self.format.in_bounds(channel, x, y)
    }

    /// Resolve the index of a particular sample.
    ///
    /// `None` if the index is outside the bounds or does not fit into a `usize`.
    pub fn index(&self, channel: u8, x: u32, y: u32) -> (index: Option<usize>)
        ensures
            ({
                let offset = self.format.offset(channel as int, x as int, y as int);
                if self.format.contains(channel as int, x as int, y as int) && offset
                    <= usize::MAX {
                    index == Some(offset as usize)
                } else {
                    index is None
                }
            }),
    {
        self.format.index(channel, x, y)
    }

    /// Get the theoretical position of sample (channel, x, y).
    ///
    /// The 'check' is for overflow during index calculation, not that it is contained in the
    /// image.
    pub fn index_ignoring_bounds(&self, channel: usize, x: usize, y: usize) -> (index: Option<
        usize,
    >)
        ensures
            ({
                let offset = self.format.offset(channel as int, x as int, y as int);
                if offset <= usize::MAX {
                    index == Some(offset as usize)
                } else {
                    index is None
                }
            }),
    {
        self.format.index_ignoring_bounds(channel, x, y)
    }

    /// Get an index provided it is inbounds.
    ///
    /// Assumes that the image is backed by some sufficiently large buffer. Then computation can
    /// not overflow as we could represent the maximum coordinate.
    pub fn in_bounds_index(&self, channel: u8, x: u32, y: u32) -> (index: usize)
        requires
            self.format.offset(channel as int, x as int, y as int) <= usize::MAX,
        ensures
            index == self.format.offset(channel as int, x as int, y as int),
    {
        self.format.in_bounds_index(channel, x, y)
    }

    /// Shrink the image to the minimum of current and given extents.
    ///
    /// This does not modify the strides, so that the resulting sample buffer may have holes
    /// created by the shrinking operation. Shrinking could also lead to an non-aliasing image when
    /// samples had aliased each other before.
    pub fn shrink_to(&mut self, channels: u8, width: u32, height: u32)
        ensures
            final(self).format == old(self).format.shrunk(channels, width, height),
            final(self).samples == old(self).samples,
            final(self).color_hint == old(self).color_hint,
    {
        self.format.shrink_to(channels, width, height)
    }
}

impl<Buffer> FlatSamples<Buffer> {
    /// Return a reference to a single sample at specified coordinates.
    ///
    /// The coordinates must be in bounds and the sample in the buffer.
    pub fn index_ref(&self, coordinates: (u8, u32, u32)) -> (sample: &Buffer::Sample) where
        Buffer: AsSamples,

        requires
            self.format.contains(coordinates.0 as int, coordinates.1 as int, coordinates.2 as int),
            self.format.offset(coordinates.0 as int, coordinates.1 as int, coordinates.2 as int)
                < self.samples.samples().len(),
        ensures
            *sample == self.samples.samples()[self.format.offset(
                coordinates.0 as int,
                coordinates.1 as int,
                coordinates.2 as int,
            )],
    {
        proof {
            self.samples.lemma_length_fits();
        }
        let (c, x, y) = coordinates;
        let index: usize = self.format.in_bounds_index(c, x, y);
        &self.samples.as_samples()[index]
    }

    /// Return a mutable reference to a single sample at specified coordinates.
    ///
    /// The coordinates must be in bounds and the sample in the buffer.
    pub fn index_mut(&mut self, coordinates: (u8, u32, u32)) -> (sample: &mut Buffer::Sample) where
        Buffer: AsSamplesMut,

        requires
            old(self).format.contains(
                coordinates.0 as int,
                coordinates.1 as int,
                coordinates.2 as int,
            ),
            old(self).format.offset(
                coordinates.0 as int,
                coordinates.1 as int,
                coordinates.2 as int,
            ) < old(self).samples.samples().len(),
        ensures
            ({
                let offset = old(self).format.offset(
                    coordinates.0 as int,
                    coordinates.1 as int,
                    coordinates.2 as int,
                );
                &&& *sample == old(self).samples.samples()[offset]
                &&& final(self).samples.samples() == old(self).samples.samples().update(
                    offset,
                    *final(sample),
                )
                &&& final(self).format == old(self).format
                &&& final(self).color_hint == old(self).color_hint
            }),
    {
        proof {
            self.samples.lemma_length_fits();
        }
        let (c, x, y) = coordinates;
        let index: usize = self.format.in_bounds_index(c, x, y);
        &mut self.samples.as_samples_mut()[index]
    }
}

} // verus!
