//! Colors, pixels and the primitive types that their samples have.

use vstd::prelude::*;

verus! {

/// An enumeration over supported color types and their bit depths.
#[derive(Clone, Copy, Debug, PartialEq, Eq, Hash, Structural)]
pub enum ColorType {
    /// Pixel is grayscale.
    Gray(u8),
    /// Pixel contains R, G and B channels.
    RGB(u8),
    /// Pixel is an index into a color palette.
    Palette(u8),
    /// Pixel is grayscale with an alpha channel.
    GrayA(u8),
    /// Pixel is RGB with an alpha channel.
    RGBA(u8),
    /// Pixel contains B, G and R channels.
    BGR(u8),
    /// Pixel is BGR with an alpha channel.
    BGRA(u8),
}

/// A primitive type that samples can have.
pub trait Primitive: Copy {
    /// The size of a sample in bits.
    spec fn spec_bits() -> u8;

    /// The zero with which a buffer for samples starts out.
    spec fn spec_blank() -> Self;

    /// The size of a sample in bits.
    fn bits() -> (bits: u8)
        ensures
            bits == Self::spec_bits(),
    ;

    /// The zero with which a buffer for samples starts out.
    fn blank() -> (blank: Self)
        ensures
            blank == Self::spec_blank(),
    ;
}

/// A pixel that is a fixed number of samples of one primitive type.
pub trait Pixel: Copy {
    /// The type of a sample.
    type Subpixel: Primitive;

    /// The number of channels.
    spec fn spec_channel_count() -> u8;

    /// The color type.
    spec fn spec_color_type() -> ColorType;

    /// The samples of this pixel, one for each channel.
    spec fn samples(self) -> Seq<Self::Subpixel>;

    /// A pixel has one sample for each channel.
    proof fn lemma_one_sample_per_channel(self)
        ensures
            self.samples().len() == Self::spec_channel_count(),
    ;

    /// A pixel is nothing more than its samples.
    proof fn lemma_samples_determine_pixel(self, other: Self)
        requires
            self.samples() == other.samples(),
        ensures
            self == other,
    ;

    /// Returns the number of channels of this pixel type.
    fn channel_count() -> (count: u8)
        ensures
            count == Self::spec_channel_count(),
    ;

    /// Returns the color type of this pixel type.
    fn color_type() -> (color: ColorType)
        ensures
            color == Self::spec_color_type(),
    ;

    /// Returns the samples as a slice.
    fn channels(&self) -> (slice: &[Self::Subpixel])
        ensures
            slice@ == self.samples(),
    ;

    /// Returns the pixel that has the samples of a slice.
    fn from_slice(slice: &[Self::Subpixel]) -> (pixel: Self)
        requires
            slice@.len() == Self::spec_channel_count(),
        ensures
            pixel.samples() == slice@,
    ;
}

/// A pixel that can be blended with another.
pub trait Blend: Pixel {
    /// The result of blending `other` over this pixel.
    spec fn spec_blended(self, other: Self) -> Self;

    /// Blend the color of a given pixel into ourself.
    fn blend(&mut self, other: &Self)
        ensures
            *final(self) == (*old(self)).spec_blended(*other),
    ;
}

/// Grayscale colors.
#[derive(Copy, Debug, PartialEq, Eq, Hash)]
pub struct Luma<T: Primitive>(pub [T; 1]);

/// Grayscale colors with an alpha channel.
#[derive(Copy, Debug, PartialEq, Eq, Hash)]
pub struct LumaA<T: Primitive>(pub [T; 2]);

/// RGB colors.
#[derive(Copy, Debug, PartialEq, Eq, Hash)]
pub struct Rgb<T: Primitive>(pub [T; 3]);

/// RGB colors with an alpha channel.
#[derive(Copy, Debug, PartialEq, Eq, Hash)]
pub struct Rgba<T: Primitive>(pub [T; 4]);

impl<T: Primitive> Clone for Luma<T> {
    fn clone(&self) -> (pixel: Self)
        ensures
            pixel == *self,
    {
        *self
    }
}

impl<T: Primitive> Clone for LumaA<T> {
    fn clone(&self) -> (pixel: Self)
        ensures
            pixel == *self,
    {
        *self
    }
}

impl<T: Primitive> Clone for Rgb<T> {
    fn clone(&self) -> (pixel: Self)
        ensures
            pixel == *self,
    {
        *self
    }
}

impl<T: Primitive> Clone for Rgba<T> {
    fn clone(&self) -> (pixel: Self)
        ensures
            pixel == *self,
    {
        *self
    }
}

impl<T: Primitive> Pixel for Luma<T> {
    type Subpixel = T;

    open spec fn spec_channel_count() -> u8 {
        1
    }

    open spec fn spec_color_type() -> ColorType {
        ColorType::Gray(T::spec_bits())
    }

    open spec fn samples(self) -> Seq<T> {
        self.0@
    }

    proof fn lemma_one_sample_per_channel(self) {
    }

    proof fn lemma_samples_determine_pixel(self, other: Self) {
        assert(self.0 =~= other.0);
    }

    fn channel_count() -> (count: u8) {
        1
    }

    fn color_type() -> (color: ColorType) {
        ColorType::Gray(T::bits())
    }

    fn channels(&self) -> (slice: &[T]) {
        self.0.as_slice()
    }

    fn from_slice(slice: &[T]) -> (pixel: Self) {
        let pixel = Luma([slice[0]]);
        assert(pixel.samples() =~= slice@);
        pixel
    }
}

impl<T: Primitive> Pixel for LumaA<T> {
    type Subpixel = T;

    open spec fn spec_channel_count() -> u8 {
        2
    }

    open spec fn spec_color_type() -> ColorType {
        ColorType::GrayA(T::spec_bits())
    }

    open spec fn samples(self) -> Seq<T> {
        self.0@
    }

    proof fn lemma_one_sample_per_channel(self) {
    }

    proof fn lemma_samples_determine_pixel(self, other: Self) {
        assert(self.0 =~= other.0);
    }

    fn channel_count() -> (count: u8) {
        2
    }

    fn color_type() -> (color: ColorType) {
        ColorType::GrayA(T::bits())
    }

    fn channels(&self) -> (slice: &[T]) {
        self.0.as_slice()
    }

    fn from_slice(slice: &[T]) -> (pixel: Self) {
        let pixel = LumaA([slice[0], slice[1]]);
        assert(pixel.samples() =~= slice@);
        pixel
    }
}

impl<T: Primitive> Pixel for Rgb<T> {
    type Subpixel = T;

    open spec fn spec_channel_count() -> u8 {
        3
    }

    open spec fn spec_color_type() -> ColorType {
        ColorType::RGB(T::spec_bits())
    }

    open spec fn samples(self) -> Seq<T> {
        self.0@
    }

    proof fn lemma_one_sample_per_channel(self) {
    }

    proof fn lemma_samples_determine_pixel(self, other: Self) {
        assert(self.0 =~= other.0);
    }

    fn channel_count() -> (count: u8) {
        3
    }

    fn color_type() -> (color: ColorType) {
        ColorType::RGB(T::bits())
    }

    fn channels(&self) -> (slice: &[T]) {
        self.0.as_slice()
    }

    fn from_slice(slice: &[T]) -> (pixel: Self) {
        let pixel = Rgb([slice[0], slice[1], slice[2]]);
        assert(pixel.samples() =~= slice@);
        pixel
    }
}

impl<T: Primitive> Pixel for Rgba<T> {
    type Subpixel = T;

    open spec fn spec_channel_count() -> u8 {
        4
    }

    open spec fn spec_color_type() -> ColorType {
        ColorType::RGBA(T::spec_bits())
    }

    open spec fn samples(self) -> Seq<T> {
        self.0@
    }

    proof fn lemma_one_sample_per_channel(self) {
    }

    proof fn lemma_samples_determine_pixel(self, other: Self) {
        assert(self.0 =~= other.0);
    }

    fn channel_count() -> (count: u8) {
        4
    }

    fn color_type() -> (color: ColorType) {
        ColorType::RGBA(T::bits())
    }

    fn channels(&self) -> (slice: &[T]) {
        self.0.as_slice()
    }

    fn from_slice(slice: &[T]) -> (pixel: Self) {
        let pixel = Rgba([slice[0], slice[1], slice[2], slice[3]]);
        assert(pixel.samples() =~= slice@);
        pixel
    }
}

impl<T: Primitive> Blend for Luma<T> {
    /// A pixel without an alpha channel covers what is below it.
    open spec fn spec_blended(self, other: Self) -> Self {
        other
    }

    fn blend(&mut self, other: &Self) {
        *self = *other;
    }
}

impl<T: Primitive> Blend for Rgb<T> {
    /// A pixel without an alpha channel covers what is below it.
    open spec fn spec_blended(self, other: Self) -> Self {
        other
    }

    fn blend(&mut self, other: &Self) {
        *self = *other;
    }
}

} // verus!
