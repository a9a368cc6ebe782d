//! What the methods of a buffer and of the types around it return, in terms of the samples in it
//! and of each other.

use vstd::prelude::*;
use vstd::view::View as _;

use crate::color::{Blend, ColorType, Luma, LumaA, Pixel, Primitive, Rgb, Rgba};
use crate::error::{Error, ImageError};
use crate::flat::FlatSamples;
use crate::image_buffer::ImageBuffer;
use crate::layout::SampleLayout;
use crate::normal_form::NormalForm;
use crate::samples::{AsSamples, AsSamplesMut};
use crate::view::View;

verus! {

/// A buffer by reference and its slice have the same samples as the buffer, and a copy has one
/// clone of each.
pub proof fn law_buffer_references_and_copies<Buffer: AsSamples>(
    flat: FlatSamples<Buffer>,
    reference: FlatSamples<&[Buffer::Sample]>,
    slice: &[Buffer::Sample],
    copy: FlatSamples<Vec<Buffer::Sample>>,
    i: int,
) where Buffer::Sample: Clone
    requires
        call_ensures(FlatSamples::<Buffer>::as_ref, (&flat,), reference),
        call_ensures(FlatSamples::<Buffer>::as_slice, (&flat,), slice),
        call_ensures(FlatSamples::<Buffer>::to_vec, (&flat,), copy),
    ensures
        reference.samples@ == flat.samples.samples(),
        reference.format == flat.format,
        reference.color_hint == flat.color_hint,
        slice@ == flat.samples.samples(),
        copy.samples@.len() == flat.samples.samples().len(),
        0 <= i < copy.samples@.len() ==> cloned(flat.samples.samples()[i], copy.samples@[i]),
        copy.format == flat.format,
        copy.color_hint == flat.color_hint,
{
}

/// A clone has the layout of the original, and a clone of what holds its samples.
pub proof fn law_clones_keep_the_layout<P: Pixel, Buffer: Clone + AsSamples<Sample = P::Subpixel>>(
    flat: FlatSamples<Buffer>,
    flat2: FlatSamples<Buffer>,
    view: View<Buffer, P>,
    view2: View<Buffer, P>,
    image: ImageBuffer<P, Buffer>,
    image2: ImageBuffer<P, Buffer>,
    dimensions: (u32, u32),
)
    requires
        call_ensures(FlatSamples::<Buffer>::clone, (&flat,), flat2),
        call_ensures(View::<Buffer, P>::clone, (&view,), view2),
        call_ensures(ImageBuffer::<P, Buffer>::clone, (&image,), image2),
        call_ensures(ImageBuffer::<P, Buffer>::dimensions, (&image,), dimensions),
    ensures
        cloned(flat.samples, flat2.samples),
        flat2.format == flat.format,
        flat2.color_hint == flat.color_hint,
        cloned(view@.samples, view2@.samples),
        view2@.format == view@.format,
        view2@.color_hint == view@.color_hint,
        cloned(image@, image2@),
        forall|d: (u32, u32)| #[trigger]
            call_ensures(ImageBuffer::<P, Buffer>::dimensions, (&image2,), d) ==> d == dimensions,
{
}

/// What is written through a mutable version of a buffer is in the buffer afterwards.
pub proof fn law_buffer_is_written_through_a_reference<Buffer: AsSamplesMut>(
    flat: &mut FlatSamples<Buffer>,
    reference: FlatSamples<&mut [Buffer::Sample]>,
)
    requires
        call_ensures(FlatSamples::<Buffer>::as_mut, (flat,), reference),
    ensures
        (*old(reference.samples))@ == old(flat).samples.samples(),
        reference.format == old(flat).format,
        reference.color_hint == old(flat).color_hint,
        final(flat).samples.samples() == (*final(reference.samples))@,
        final(flat).format == old(flat).format,
        final(flat).color_hint == old(flat).color_hint,
{
}

/// What is written to the slice of a buffer is in the buffer afterwards.
pub proof fn law_buffer_is_written_through_a_slice<Buffer: AsSamplesMut>(
    flat: &mut FlatSamples<Buffer>,
    slice: &mut [Buffer::Sample],
)
    requires
        call_ensures(FlatSamples::<Buffer>::as_mut_slice, (flat,), slice),
    ensures
        old(slice)@ == old(flat).samples.samples(),
        final(flat).samples.samples() == final(slice)@,
        final(flat).format == old(flat).format,
        final(flat).color_hint == old(flat).color_hint,
{
}

/// The image is the first `min_length` samples of a buffer that has as many, and there is none in
/// a shorter one.
pub proof fn law_image_is_the_start_of_the_buffer<Buffer: AsSamples>(
    flat: FlatSamples<Buffer>,
    length: Option<usize>,
    image: Option<&[Buffer::Sample]>,
    i: int,
)
    requires
        call_ensures(FlatSamples::<Buffer>::min_length, (&flat,), length),
        call_ensures(FlatSamples::<Buffer>::image_slice, (&flat,), image),
    ensures
        image is Some <==> length is Some && length->0 <= flat.samples.samples().len(),
        image matches Some(slice) ==> slice@.len() == length->0,
        image matches Some(slice) ==> 0 <= i < slice@.len() ==> slice@[i]
            == flat.samples.samples()[i],
{
    flat.samples.lemma_length_fits();
    super::lemma_span_nonnegative(flat.format);
}

/// The image that can be modified is the first `min_length` samples of a buffer that has as many,
/// and there is none in a shorter one. The samples after it stay as they are.
pub proof fn law_image_is_written_at_the_start_of_the_buffer<Buffer: AsSamplesMut>(
    flat: &mut FlatSamples<Buffer>,
    length: Option<usize>,
    image: Option<&mut [Buffer::Sample]>,
    i: int,
)
    requires
        call_ensures(SampleLayout::min_length, (&old(flat).format,), length),
        call_ensures(FlatSamples::<Buffer>::image_mut_slice, (flat,), image),
    ensures
        image is Some <==> length is Some && length->0 <= old(flat).samples.samples().len(),
        final(flat).format == old(flat).format,
        final(flat).color_hint == old(flat).color_hint,
        image is None ==> *final(flat) == *old(flat),
        image matches Some(slice) ==> {
            let (before, after) = (old(flat).samples.samples(), final(flat).samples.samples());
            &&& slice@.len() == length->0
            &&& 0 <= i < slice@.len() ==> slice@[i] == before[i]
            &&& (*final(slice))@.len() == slice@.len() ==> {
                &&& after.len() == before.len()
                &&& 0 <= i < slice@.len() ==> after[i] == (*final(slice))@[i]
                &&& slice@.len() <= i < before.len() ==> after[i] == before[i]
            }
        },
{
    old(flat).samples.lemma_length_fits();
    super::lemma_span_nonnegative(old(flat).format);
}

/// A sample in bounds that is in the buffer can be indexed, and is the one at its position.
pub proof fn law_sample_by_coordinates<Buffer: AsSamples>(
    flat: FlatSamples<Buffer>,
    c: u8,
    x: u32,
    y: u32,
    sample: &Buffer::Sample,
)
    requires
        c < flat.format.channels && x < flat.format.width && y < flat.format.height,
        c * flat.format.channel_stride + x * flat.format.width_stride + y
            * flat.format.height_stride < flat.samples.samples().len(),
    ensures
        call_requires(FlatSamples::<Buffer>::index_ref, (&flat, (c, x, y))),
        call_ensures(FlatSamples::<Buffer>::index_ref, (&flat, (c, x, y)), sample) ==> *sample
            == flat.samples.samples()[c * flat.format.channel_stride + x * flat.format.width_stride
            + y * flat.format.height_stride],
{
}

/// A sample in bounds that is in the buffer can be indexed to be modified, which changes what is at
/// its position and nothing else.
pub proof fn law_sample_is_written_by_coordinates<Buffer: AsSamplesMut>(
    flat: &mut FlatSamples<Buffer>,
    c: u8,
    x: u32,
    y: u32,
    sample: &mut Buffer::Sample,
    i: int,
)
    requires
        c < flat.format.channels && x < flat.format.width && y < flat.format.height,
        c * flat.format.channel_stride + x * flat.format.width_stride + y
            * flat.format.height_stride < flat.samples.samples().len(),
        call_ensures(FlatSamples::<Buffer>::index_mut, (flat, (c, x, y)), sample),
    ensures
        call_requires(FlatSamples::<Buffer>::index_mut, (flat, (c, x, y))),
        ({
            let (before, after) = (old(flat).samples.samples(), final(flat).samples.samples());
            let position = c * old(flat).format.channel_stride + x * old(flat).format.width_stride
                + y * old(flat).format.height_stride;
            &&& *old(sample) == before[position]
            &&& after.len() == before.len()
            &&& after[position] == *final(sample)
            &&& 0 <= i < before.len() && i != position ==> after[i] == before[i]
        }),
        final(flat).format == old(flat).format,
        final(flat).color_hint == old(flat).color_hint,
{
    super::lemma_offset_nonnegative(old(flat).format, c as int, x as int, y as int);
}

/// Moving a buffer into an image buffer succeeds exactly if it is in row-major form, has the
/// channels of the pixel type and is large enough. What is wrong is told, in this order, and the
/// buffer is given back.
pub proof fn law_moving_into_an_image_buffer<P: Pixel, Buffer: AsSamples<Sample = P::Subpixel>>(
    flat: FlatSamples<Buffer>,
    row_major: bool,
    length: Option<usize>,
    channels: u8,
    color: ColorType,
    image: Result<ImageBuffer<P, Buffer>, (Error, FlatSamples<Buffer>)>,
)
    requires
        call_ensures(
            SampleLayout::is_normal,
            (&flat.format, NormalForm::RowMajorPacked),
            row_major,
        ),
        call_ensures(SampleLayout::min_length, (&flat.format,), length),
        call_ensures(P::channel_count, (), channels),
        call_ensures(P::color_type, (), color),
        call_ensures(FlatSamples::<Buffer>::try_into_buffer::<P>, (flat,), image),
    ensures
        image is Ok <==> row_major && flat.format.channels == channels && length is Some
            && length->0 <= flat.samples.samples().len(),
        image matches Err((error, back)) ==> {
            &&& back == flat
            &&& error == if !row_major {
                Error::NormalFormRequired(NormalForm::RowMajorPacked)
            } else if flat.format.channels != channels {
                Error::WrongColor(color)
            } else {
                Error::TooLarge
            }
        },
{
    flat.samples.lemma_length_fits();
}

/// Each image that is not empty, with `channels` samples to a pixel, `width` pixels to a row and
/// nothing between them, can be moved into an image buffer for pixels of as many channels, which
/// has the dimensions and the samples of the image.
pub proof fn law_packed_rows_become_an_image_buffer<
    P: Pixel,
    Buffer: AsSamples<Sample = P::Subpixel>,
>(
    flat: FlatSamples<Buffer>,
    channels: u8,
    image: Result<ImageBuffer<P, Buffer>, (Error, FlatSamples<Buffer>)>,
)
    requires
        call_ensures(P::channel_count, (), channels),
        flat.format.channels == channels,
        channels > 0 && flat.format.width > 0 && flat.format.height > 0,
        flat.format.channel_stride == 1,
        flat.format.width_stride == channels,
        flat.format.height_stride == flat.format.width * channels,
        flat.samples.samples().len() >= flat.format.width * channels * flat.format.height,
        call_ensures(FlatSamples::<Buffer>::try_into_buffer::<P>, (flat,), image),
    ensures
        image is Ok,
        forall|dimensions: (u32, u32)| #[trigger]
            call_ensures(ImageBuffer::<P, Buffer>::dimensions, (&image->Ok_0,), dimensions)
                ==> dimensions == (flat.format.width, flat.format.height),
        forall|container: Buffer| #[trigger]
            call_ensures(ImageBuffer::<P, Buffer>::into_raw, (image->Ok_0,), container)
                ==> container == flat.samples,
{
    let format = flat.format;
    flat.samples.lemma_length_fits();
    super::layout_calls::lemma_grouped_dims(
        format.channel_dim(),
        format.width_dim(),
        format.height_dim(),
    );
    super::law_nested_is_unaliased(format);
    super::law_packed_min_length(format);
    assert(format.width * channels * format.height == format.width * format.height * channels)
        by (nonlinear_arith);
}

/// A buffer that was moved into an image buffer had row-major strides. The image buffer has its
/// dimensions and its samples, each at the position that it had.
pub proof fn law_image_buffer_has_the_samples<P: Pixel, Buffer: AsSamples<Sample = P::Subpixel>>(
    flat: FlatSamples<Buffer>,
    image: ImageBuffer<P, Buffer>,
    dimensions: (u32, u32),
    container: Buffer,
    c: u8,
    x: u32,
    y: u32,
    index: Option<usize>,
)
    requires
        call_ensures(
            FlatSamples::<Buffer>::try_into_buffer::<P>,
            (flat,),
            Ok::<ImageBuffer<P, Buffer>, (Error, FlatSamples<Buffer>)>(image),
        ),
        call_ensures(ImageBuffer::<P, Buffer>::dimensions, (&image,), dimensions),
        call_ensures(ImageBuffer::<P, Buffer>::into_raw, (image,), container),
        call_ensures(SampleLayout::index, (&flat.format, c, x, y), index),
    ensures
        dimensions == (flat.format.width, flat.format.height),
        container == flat.samples,
        index matches Some(i) ==> i == (y * dimensions.0 + x) * flat.format.channels + c,
        index matches Some(i) ==> i == image.position(c as int, x as int, y as int),
{
    super::law_row_major_positions(flat.format, c as int, x as int, y as int);
    assert(image.position(c as int, x as int, y as int) == flat.format.offset(
        c as int,
        x as int,
        y as int,
    ));
}

/// A container becomes an image buffer exactly if it has a sample for each channel of each pixel.
pub proof fn law_image_buffer_from_raw<P: Pixel, Container: AsSamples<Sample = P::Subpixel>>(
    width: u32,
    height: u32,
    container: Container,
    channels: u8,
    image: Option<ImageBuffer<P, Container>>,
)
    requires
        call_ensures(P::channel_count, (), channels),
        call_ensures(ImageBuffer::<P, Container>::from_raw, (width, height, container), image),
    ensures
        image is Some <==> width * height * channels <= container.samples().len(),
        image matches Some(buffer) ==> forall|dimensions: (u32, u32)| #[trigger]
            call_ensures(ImageBuffer::<P, Container>::dimensions, (&buffer,), dimensions)
                ==> dimensions == (width, height),
        image matches Some(buffer) ==> forall|raw: Container| #[trigger]
            call_ensures(ImageBuffer::<P, Container>::into_raw, (buffer,), raw) ==> raw
                == container,
        image matches Some(buffer) ==> forall|c: int, x: int, y: int| #[trigger]
            buffer.position(c, x, y) == (y * width + x) * channels + c,
{
}

/// The name of a normal form.
pub open spec fn form_name(form: NormalForm) -> Seq<char> {
    match form {
        NormalForm::Unaliased => "Unaliased"@,
        NormalForm::PixelPacked => "PixelPacked"@,
        NormalForm::ImagePacked => "ImagePacked"@,
        NormalForm::RowMajorPacked => "RowMajorPacked"@,
        NormalForm::ColumnMajorPacked => "ColumnMajorPacked"@,
    }
}

/// An image that is too large has wrong dimensions, a color that does not match is not supported,
/// and the message of a form that is required ends in its name.
pub proof fn law_error_becomes_an_image_error(error: Error, converted: ImageError)
    requires
        call_ensures(ImageError::from, (error,), converted),
    ensures
        converted is DimensionError <==> error is TooLarge,
        converted is UnsupportedColor <==> error is WrongColor,
        converted is FormatError <==> error is NormalFormRequired,
        error matches Error::WrongColor(color) ==> converted == ImageError::UnsupportedColor(color),
        error matches Error::NormalFormRequired(form) ==> converted->FormatError_0@
            == "Required sample buffer in normal form "@ + form_name(form),
{
    reveal_strlit("Required sample buffer in normal form ");
    reveal_strlit("Unaliased");
    reveal_strlit("PixelPacked");
    reveal_strlit("ImagePacked");
    reveal_strlit("RowMajorPacked");
    reveal_strlit("ColumnMajorPacked");
    reveal_strlit("Required sample buffer in normal form Unaliased");
    reveal_strlit("Required sample buffer in normal form PixelPacked");
    reveal_strlit("Required sample buffer in normal form ImagePacked");
    reveal_strlit("Required sample buffer in normal form RowMajorPacked");
    reveal_strlit("Required sample buffer in normal form ColumnMajorPacked");
    if let Error::NormalFormRequired(form) = error {
        assert(converted->FormatError_0@ =~= "Required sample buffer in normal form "@ + form_name(
            form,
        ));
    }
}

/// The samples of a slice, a vector or an array are its elements, in order.
pub proof fn law_elements_are_samples<T, const N: usize>(
    slice: &[T],
    vec: Vec<T>,
    array: [T; N],
    of_slice: &[T],
    of_vec: &[T],
    of_array: &[T],
)
    requires
        call_ensures(<[T] as AsSamples>::as_samples, (slice,), of_slice),
        call_ensures(<Vec<T> as AsSamples>::as_samples, (&vec,), of_vec),
        call_ensures(<[T; N] as AsSamples>::as_samples, (&array,), of_array),
    ensures
        of_slice@ == slice@,
        of_vec@ == vec@,
        of_array@ == array@,
{
}

/// A reference to a container has the samples of the container, and so has a pointer that owns or
/// shares it.
pub proof fn law_pointers_have_the_samples<B: AsSamples + ?Sized>(
    reference: &B,
    boxed: Box<B>,
    counted: std::rc::Rc<B>,
    shared: std::sync::Arc<B>,
    of_reference: &[B::Sample],
    of_boxed: &[B::Sample],
    of_counted: &[B::Sample],
    of_shared: &[B::Sample],
)
    requires
        call_ensures(<&B as AsSamples>::as_samples, (&reference,), of_reference),
        call_ensures(<Box<B> as AsSamples>::as_samples, (&boxed,), of_boxed),
        call_ensures(<std::rc::Rc<B> as AsSamples>::as_samples, (&counted,), of_counted),
        call_ensures(<std::sync::Arc<B> as AsSamples>::as_samples, (&shared,), of_shared),
    ensures
        of_reference@ == B::samples(reference),
        of_boxed@ == B::samples(&*boxed),
        of_counted@ == B::samples(&*counted),
        of_shared@ == B::samples(&*shared),
{
}

/// A mutable reference to a container has the samples of the container.
pub proof fn law_mutable_reference_has_the_samples<B: AsSamples + ?Sized>(
    reference: &mut B,
    samples: &[B::Sample],
)
    requires
        call_ensures(<&mut B as AsSamples>::as_samples, (&reference,), samples),
    ensures
        samples@ == B::samples(old(reference)),
{
}

/// The samples to be modified are those of the container, and what they have become is in the
/// container afterwards.
pub proof fn law_samples_are_written<B: AsSamplesMut + ?Sized>(
    container: &mut B,
    samples: &mut [B::Sample],
)
    requires
        call_ensures(B::as_samples_mut, (container,), samples),
    ensures
        old(samples)@ == B::samples(old(container)),
        B::samples(final(container)) == final(samples)@,
{
}

/// How many bits the unsigned primitive types have, and that buffers of them start out as zeros.
pub proof fn law_unsigned_primitives(
    bits: [u8; 5],
    of_u8: u8,
    of_u16: u16,
    of_u32: u32,
    of_u64: u64,
    of_usize: usize,
)
    requires
        call_ensures(u8::bits, (), bits[0]),
        call_ensures(u8::blank, (), of_u8),
        call_ensures(u16::bits, (), bits[1]),
        call_ensures(u16::blank, (), of_u16),
        call_ensures(u32::bits, (), bits[2]),
        call_ensures(u32::blank, (), of_u32),
        call_ensures(u64::bits, (), bits[3]),
        call_ensures(u64::blank, (), of_u64),
        call_ensures(usize::bits, (), bits[4]),
        call_ensures(usize::blank, (), of_usize),
    ensures
        bits[0] == 8,
        of_u8 == 0,
        bits[1] == 16,
        of_u16 == 0,
        bits[2] == 32,
        of_u32 == 0,
        bits[3] == 64,
        of_u64 == 0,
        bits[4] == usize::BITS,
        of_usize == 0,
{
}

/// How many bits the signed primitive types have, and that buffers of them start out as zeros.
pub proof fn law_signed_primitives(
    bits: [u8; 5],
    of_i8: i8,
    of_i16: i16,
    of_i32: i32,
    of_i64: i64,
    of_isize: isize,
)
    requires
        call_ensures(i8::bits, (), bits[0]),
        call_ensures(i8::blank, (), of_i8),
        call_ensures(i16::bits, (), bits[1]),
        call_ensures(i16::blank, (), of_i16),
        call_ensures(i32::bits, (), bits[2]),
        call_ensures(i32::blank, (), of_i32),
        call_ensures(i64::bits, (), bits[3]),
        call_ensures(i64::blank, (), of_i64),
        call_ensures(isize::bits, (), bits[4]),
        call_ensures(isize::blank, (), of_isize),
    ensures
        bits[0] == 8,
        of_i8 == 0,
        bits[1] == 16,
        of_i16 == 0,
        bits[2] == 32,
        of_i32 == 0,
        bits[3] == 64,
        of_i64 == 0,
        bits[4] == usize::BITS,
        of_isize == 0,
{
}

/// The number of channels, the color and the samples of grayscale pixels.
pub proof fn law_luma_pixels<T: Primitive>(
    bits: u8,
    count: u8,
    color: ColorType,
    pixel: Luma<T>,
    channels: &[T],
    slice: &[T],
    made: Luma<T>,
)
    requires
        call_ensures(T::bits, (), bits),
        call_ensures(<Luma<T> as Pixel>::channel_count, (), count),
        call_ensures(<Luma<T> as Pixel>::color_type, (), color),
        call_ensures(<Luma<T> as Pixel>::channels, (&pixel,), channels),
        call_ensures(<Luma<T> as Pixel>::from_slice, (slice,), made),
    ensures
        count == 1,
        color == ColorType::Gray(bits),
        channels@ == pixel.0@,
        made.0@ == slice@,
{
}

/// The number of channels, the color and the samples of grayscale pixels with an alpha channel.
pub proof fn law_luma_alpha_pixels<T: Primitive>(
    bits: u8,
    count: u8,
    color: ColorType,
    pixel: LumaA<T>,
    channels: &[T],
    slice: &[T],
    made: LumaA<T>,
)
    requires
        call_ensures(T::bits, (), bits),
        call_ensures(<LumaA<T> as Pixel>::channel_count, (), count),
        call_ensures(<LumaA<T> as Pixel>::color_type, (), color),
        call_ensures(<LumaA<T> as Pixel>::channels, (&pixel,), channels),
        call_ensures(<LumaA<T> as Pixel>::from_slice, (slice,), made),
    ensures
        count == 2,
        color == ColorType::GrayA(bits),
        channels@ == pixel.0@,
        made.0@ == slice@,
{
}

/// The number of channels, the color and the samples of RGB pixels.
pub proof fn law_rgb_pixels<T: Primitive>(
    bits: u8,
    count: u8,
    color: ColorType,
    pixel: Rgb<T>,
    channels: &[T],
    slice: &[T],
    made: Rgb<T>,
)
    requires
        call_ensures(T::bits, (), bits),
        call_ensures(<Rgb<T> as Pixel>::channel_count, (), count),
        call_ensures(<Rgb<T> as Pixel>::color_type, (), color),
        call_ensures(<Rgb<T> as Pixel>::channels, (&pixel,), channels),
        call_ensures(<Rgb<T> as Pixel>::from_slice, (slice,), made),
    ensures
        count == 3,
        color == ColorType::RGB(bits),
        channels@ == pixel.0@,
        made.0@ == slice@,
{
}

/// The number of channels, the color and the samples of RGB pixels with an alpha channel.
pub proof fn law_rgb_alpha_pixels<T: Primitive>(
    bits: u8,
    count: u8,
    color: ColorType,
    pixel: Rgba<T>,
    channels: &[T],
    slice: &[T],
    made: Rgba<T>,
)
    requires
        call_ensures(T::bits, (), bits),
        call_ensures(<Rgba<T> as Pixel>::channel_count, (), count),
        call_ensures(<Rgba<T> as Pixel>::color_type, (), color),
        call_ensures(<Rgba<T> as Pixel>::channels, (&pixel,), channels),
        call_ensures(<Rgba<T> as Pixel>::from_slice, (slice,), made),
    ensures
        count == 4,
        color == ColorType::RGBA(bits),
        channels@ == pixel.0@,
        made.0@ == slice@,
{
}

/// A pixel without an alpha channel covers the one that it is blended over.
pub proof fn law_opaque_pixels_cover<T: Primitive>(
    gray: &mut Luma<T>,
    over_gray: Luma<T>,
    rgb: &mut Rgb<T>,
    over_rgb: Rgb<T>,
)
    requires
        call_ensures(<Luma<T> as Blend>::blend, (gray, &over_gray), ()),
        call_ensures(<Rgb<T> as Blend>::blend, (rgb, &over_rgb), ()),
    ensures
        *final(gray) == over_gray,
        *final(rgb) == over_rgb,
{
}

} // verus!
