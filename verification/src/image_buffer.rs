//! Image buffers with packed samples in row-major form.

use vstd::prelude::*;

use crate::color::{LumaA, Pixel};
use crate::samples::AsSamples;

verus! {

/// Generic image buffer.
///
/// The samples of a pixel follow each other, then the pixels of a row, then the rows.
#[derive(Debug)]
pub struct ImageBuffer<P: Pixel, Container> {
    width: u32,
    height: u32,
    phantom: std::marker::PhantomData<P>,
    data: Container,
}

/// Sendable grayscale + alpha channel image buffer.
pub type GrayAlphaImage = ImageBuffer<LumaA<u8>, Vec<u8>>;

/// The number of samples in an image.
pub open spec fn image_len(width: u32, height: u32, channels: u8) -> int {
    width * height * channels
}

impl<P: Pixel, Container> ImageBuffer<P, Container> {
    /// The width of the image.
    pub closed spec fn spec_width(&self) -> u32 {
        self.width
    }

    /// The height of the image.
    pub closed spec fn spec_height(&self) -> u32 {
        self.height
    }

    /// The container with the samples.
    pub closed spec fn view(&self) -> Container {
        self.data
    }

    /// The position of a sample in the container.
    pub open spec fn position(&self, channel: int, x: int, y: int) -> int {
        (y * self.spec_width() + x) * P::spec_channel_count() + channel
    }
}

impl<P: Pixel, Container: Clone> Clone for ImageBuffer<P, Container> {
    fn clone(&self) -> (image: Self)
        ensures
            image.spec_width() == self.spec_width(),
            image.spec_height() == self.spec_height(),
            cloned(self@, image@),
    {
        ImageBuffer {
            width: self.width,
            height: self.height,
            phantom: std::marker::PhantomData,
            data: self.data.clone(),
        }
    }
}

impl<P: Pixel, Container: AsSamples<Sample = P::Subpixel>> ImageBuffer<P, Container> {
    /// Whether the container holds all samples of the image.
    pub open spec fn wf(&self) -> bool {
        image_len(self.spec_width(), self.spec_height(), P::spec_channel_count())
            <= self@.samples().len()
    }

    /// Constructs a buffer from a generic container (for example a `Vec` or a slice).
    ///
    /// Returns `None` if the container is not big enough.
    pub fn from_raw(width: u32, height: u32, buf: Container) -> (image: Option<Self>)
        ensures
            match image {
                Some(image) => {
                    &&& image_len(width, height, P::spec_channel_count()) <= buf.samples().len()
                    &&& image.wf()
                    &&& image.spec_width() == width
                    &&& image.spec_height() == height
                    &&& image@ == buf
                },
                None => image_len(width, height, P::spec_channel_count()) > buf.samples().len(),
            },
    {
        let len: usize = buf.as_samples().len();
        // The number of pixels fits into 64 bits, and that of samples into 72.
        proof {
            assert(width * height <= 0xffff_ffff * 0xffff_ffff) by (nonlinear_arith)
                requires
                    width <= 0xffff_ffff,
                    height <= 0xffff_ffff,
            ;
            let pixels = width * height;
            assert(pixels * P::spec_channel_count() <= 0xffff_ffff * 0xffff_ffff * 0xff)
                by (nonlinear_arith)
                requires
                    0 <= pixels <= 0xffff_ffff * 0xffff_ffff,
                    0 <= P::spec_channel_count() <= 0xff,
            ;
        }
        if width as u128 * height as u128 * P::channel_count() as u128 <= len as u128 {
            Some(ImageBuffer { width, height, phantom: std::marker::PhantomData, data: buf })
        } else {
            None
        }
    }
}

impl<P: Pixel, Container> ImageBuffer<P, Container> {
    /// The width and height of this image.
    pub fn dimensions(&self) -> (dimensions: (u32, u32))
        ensures
            dimensions == (self.spec_width(), self.spec_height()),
    {
        (self.width, self.height)
    }

    /// Returns the underlying container.
    pub fn into_raw(self) -> (container: Container)
        ensures
            container == self@,
    {
        self.data
    }
}

} // verus!
