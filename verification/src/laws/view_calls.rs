//! What can be read and written through views, in terms of the samples in the buffer and of what
//! other calls return.

use vstd::prelude::*;
use vstd::view::View as _;

use crate::color::{Blend, ColorType, Pixel};
use crate::error::Error;
use crate::flat::FlatSamples;
use crate::layout::SampleLayout;
use crate::normal_form::NormalForm;
use crate::samples::{AsSamples, AsSamplesMut};
use crate::view::View;
use crate::view_mut::ViewMut;

verus! {

/// A buffer can be viewed exactly if it has the channels of the pixel type and is large enough.
/// What is wrong is told, in this order. The view is of the samples and the layout of the buffer.
pub proof fn law_viewing_a_buffer<P: Pixel, Buffer: AsSamples<Sample = P::Subpixel>>(
    flat: FlatSamples<Buffer>,
    channels: u8,
    color: ColorType,
    length: Option<usize>,
    view: Result<View<&[P::Subpixel], P>, Error>,
)
    requires
        call_ensures(P::channel_count, (), channels),
        call_ensures(P::color_type, (), color),
        call_ensures(SampleLayout::min_length, (&flat.format,), length),
        call_ensures(FlatSamples::<Buffer>::as_view::<P>, (&flat,), view),
    ensures
        view is Ok <==> flat.format.channels == channels && length is Some && length->0
            <= flat.samples.samples().len(),
        view matches Err(error) ==> error == if flat.format.channels != channels {
            Error::WrongColor(color)
        } else {
            Error::TooLarge
        },
        view matches Ok(view) ==> {
            &&& view.wf()
            &&& view@.samples@ == flat.samples.samples()
            &&& view@.format == flat.format
            &&& view@.color_hint == flat.color_hint
        },
{
    flat.samples.lemma_length_fits();
}

/// Every pixel in bounds can be read from a view of a buffer with channels, and each of its samples
/// is the one in the buffer that is the strides of its coordinates away from the start.
pub proof fn law_pixels_of_a_viewed_buffer<P: Pixel, Buffer: AsSamples<Sample = P::Subpixel>>(
    flat: FlatSamples<Buffer>,
    view: View<&[P::Subpixel], P>,
    x: u32,
    y: u32,
    c: int,
    pixel: P,
)
    requires
        call_ensures(
            FlatSamples::<Buffer>::as_view::<P>,
            (&flat,),
            Ok::<View<&[P::Subpixel], P>, Error>(view),
        ),
        flat.format.channels > 0,
        x < flat.format.width && y < flat.format.height,
        call_ensures(View::<&[P::Subpixel], P>::get_pixel, (&view, x, y), pixel),
    ensures
        call_requires(View::<&[P::Subpixel], P>::get_pixel, (&view, x, y)),
        pixel.samples().len() == flat.format.channels,
        0 <= c < flat.format.channels ==> pixel.samples()[c] == flat.samples.samples()[c
            * flat.format.channel_stride + x * flat.format.width_stride + y
            * flat.format.height_stride],
{
}

/// Each sample of a pixel is the one in the viewed buffer that is the strides of its coordinates
/// away from the start, whatever these are.
pub proof fn law_pixel_of_a_view<Buffer, P: Pixel>(
    view: View<Buffer, P>,
    x: u32,
    y: u32,
    channels: u8,
    pixel: P,
    c: int,
) where Buffer: AsSamples<Sample = P::Subpixel>
    requires
        call_ensures(P::channel_count, (), channels),
        call_ensures(View::<Buffer, P>::get_pixel, (&view, x, y), pixel),
    ensures
        pixel.samples().len() == channels,
        0 <= c < channels ==> pixel.samples()[c] == view@.samples.samples()[c
            * view@.format.channel_stride + x * view@.format.width_stride + y
            * view@.format.height_stride],
{
}

/// A sample can be read exactly if it is in bounds, and is the one in the viewed buffer that is the
/// strides of its coordinates away from the start.
pub proof fn law_sample_of_a_view<Buffer, P: Pixel>(
    view: View<Buffer, P>,
    c: u8,
    x: u32,
    y: u32,
    sample: Option<&P::Subpixel>,
) where Buffer: AsSamples<Sample = P::Subpixel>
    requires
        call_ensures(View::<Buffer, P>::get_sample, (&view, c, x, y), sample),
    ensures
        sample is Some <==> c < view@.format.channels && x < view@.format.width && y
            < view@.format.height,
        sample matches Some(sample) ==> *sample == view@.samples.samples()[c
            * view@.format.channel_stride + x * view@.format.width_stride + y
            * view@.format.height_stride],
{
}

/// The samples of a pixel are those that can be read one by one.
pub proof fn law_pixel_is_its_samples<Buffer, P: Pixel>(
    view: View<Buffer, P>,
    c: u8,
    x: u32,
    y: u32,
    pixel: P,
    sample: Option<&P::Subpixel>,
) where Buffer: AsSamples<Sample = P::Subpixel>
    requires
        view.wf(),
        call_ensures(View::<Buffer, P>::get_pixel, (&view, x, y), pixel),
        call_ensures(View::<Buffer, P>::get_sample, (&view, c, x, y), sample),
    ensures
        sample matches Some(sample) ==> c < pixel.samples().len() && *sample
            == pixel.samples()[c as int],
{
}

/// What a view gives access to: the buffer, its dimensions, its image, and the pixels in bounds.
pub proof fn law_view_tells_its_buffer<Buffer, P: Pixel>(
    view: View<Buffer, P>,
    flat: &FlatSamples<Buffer>,
    taken: FlatSamples<Buffer>,
    samples: &Buffer,
    length: usize,
    image: &[P::Subpixel],
    i: int,
) where Buffer: AsSamples<Sample = P::Subpixel>
    requires
        view.wf(),
        call_ensures(View::<Buffer, P>::flat, (&view,), flat),
        call_ensures(View::<Buffer, P>::into_inner, (view,), taken),
        call_ensures(View::<Buffer, P>::samples, (&view,), samples),
        call_ensures(View::<Buffer, P>::min_length, (&view,), length),
        call_ensures(View::<Buffer, P>::image_slice, (&view,), image),
    ensures
        *flat == view@,
        taken == view@,
        *samples == view@.samples,
        forall|l: Option<usize>| #[trigger]
            call_ensures(SampleLayout::min_length, (&view@.format,), l) ==> l == Some(length),
        image@.len() == length,
        0 <= i < length ==> image@[i] == view@.samples.samples()[i],
{
    crate::view::lemma_bounds_fit::<P>(view@.format, view@.samples.samples().len());
    view@.samples.lemma_length_fits();
    super::lemma_span_nonnegative(view@.format);
}

/// The width and height of a view are those of the layout, and the pixels in bounds are those
/// below.
pub proof fn law_view_dimensions<Buffer, P: Pixel>(
    view: View<Buffer, P>,
    dimensions: (u32, u32),
    bounds: (u32, u32, u32, u32),
    x: u32,
    y: u32,
    inside: bool,
    inner: &View<Buffer, P>,
) where Buffer: AsSamples<Sample = P::Subpixel>
    requires
        call_ensures(View::<Buffer, P>::dimensions, (&view,), dimensions),
        call_ensures(View::<Buffer, P>::bounds, (&view,), bounds),
        call_ensures(View::<Buffer, P>::in_bounds, (&view, x, y), inside),
        call_ensures(View::<Buffer, P>::inner, (&view,), inner),
    ensures
        dimensions == (view@.format.width, view@.format.height),
        bounds == (0u32, view@.format.width, 0u32, view@.format.height),
        inside <==> x < view@.format.width && y < view@.format.height,
        *inner == view,
{
}

/// What can be called on a valid view: all of it, with any pixel in bounds.
pub proof fn law_view_can_be_read<Buffer, P: Pixel>(view: View<Buffer, P>, c: u8, x: u32, y: u32)
    where Buffer: AsSamples<Sample = P::Subpixel>
    requires
        view.wf(),
    ensures
        call_requires(View::<Buffer, P>::get_sample, (&view, c, x, y)),
        call_requires(View::<Buffer, P>::min_length, (&view,)),
        call_requires(View::<Buffer, P>::image_slice, (&view,)),
        view@.format.channels > 0 && x < view@.format.width && y < view@.format.height
            ==> call_requires(View::<Buffer, P>::get_pixel, (&view, x, y)),
{
}

/// A view is valid as long as the buffer holds every sample of each pixel in bounds, and has no
/// more channels than the pixels.
pub proof fn law_valid_views<Buffer, P: Pixel>(view: View<Buffer, P>, channels: u8) where
    Buffer: AsSamples<Sample = P::Subpixel>,

    requires
        call_ensures(P::channel_count, (), channels),
    ensures
        view.wf() <==> {
            &&& view@.format.channels <= channels
            &&& channels > 0 && view@.format.width > 0 && view@.format.height > 0 ==> (channels - 1)
                * view@.format.channel_stride + (view@.format.width - 1) * view@.format.width_stride
                + (view@.format.height - 1) * view@.format.height_stride
                < view@.samples.samples().len()
        },
{
}

/// Shrinking a view shrinks its layout, keeps the samples, and leaves the pixels that remain in
/// bounds as they were.
pub proof fn law_shrinking_a_view<Buffer, P: Pixel>(
    view: &mut View<Buffer, P>,
    layout: &mut SampleLayout,
    channels: u8,
    width: u32,
    height: u32,
    x: u32,
    y: u32,
    before: P,
    after: P,
) where Buffer: AsSamples<Sample = P::Subpixel>
    requires
        old(view).wf(),
        old(view)@.format == *old(layout),
        call_ensures(View::<Buffer, P>::shrink_to, (view, channels, width, height), ()),
        call_ensures(SampleLayout::shrink_to, (layout, channels, width, height), ()),
        call_ensures(View::<Buffer, P>::get_pixel, (&*old(view), x, y), before),
        call_ensures(View::<Buffer, P>::get_pixel, (&*final(view), x, y), after),
    ensures
        call_requires(View::<Buffer, P>::shrink_to, (view, channels, width, height)),
        final(view).wf(),
        final(view)@.format == *final(layout),
        final(view)@.samples == old(view)@.samples,
        final(view)@.color_hint == old(view)@.color_hint,
        after == before,
{
    assert(after.samples() =~= before.samples());
    after.lemma_samples_determine_pixel(before);
}

/// A buffer can be modified as an image exactly if its samples are not aliased, its channel stride
/// is one, it has the channels of the pixel type, however many these are, and it is large enough.
/// What is wrong is told, in this order, and then the buffer stays as it is.
pub proof fn law_viewing_a_buffer_to_modify_it<
    P: Pixel,
    Buffer: AsSamplesMut<Sample = P::Subpixel>,
>(
    flat: &mut FlatSamples<Buffer>,
    aliased: bool,
    channels: u8,
    color: ColorType,
    length: Option<usize>,
    view: Result<ViewMut<&mut [P::Subpixel], P>, Error>,
)
    requires
        call_ensures(SampleLayout::has_aliased_samples, (&old(flat).format,), aliased),
        call_ensures(P::channel_count, (), channels),
        call_ensures(P::color_type, (), color),
        call_ensures(SampleLayout::min_length, (&old(flat).format,), length),
        call_ensures(FlatSamples::<Buffer>::as_view_mut::<P>, (flat,), view),
    ensures
        view is Ok <==> {
            &&& !aliased
            &&& old(flat).format.channel_stride == 1
            &&& old(flat).format.channels == channels
            &&& length is Some && length->0 <= old(flat).samples.samples().len()
        },
        view matches Err(error) ==> error == if aliased || old(flat).format.channel_stride != 1 {
            Error::NormalFormRequired(NormalForm::PixelPacked)
        } else if old(flat).format.channels != channels {
            Error::WrongColor(color)
        } else {
            Error::TooLarge
        },
        view is Err ==> *final(flat) == *old(flat),
        final(flat).format == old(flat).format,
        final(flat).color_hint == old(flat).color_hint,
        view matches Ok(view) ==> {
            &&& view.wf()
            &&& view@.samples@ == old(flat).samples.samples()
            &&& view@.format == old(flat).format
            &&& view@.color_hint == old(flat).color_hint
            &&& final(flat).samples.samples() == (*final(view@.samples))@
        },
{
    old(flat).samples.lemma_length_fits();
}

/// Each sample of a pixel is the one in the viewed buffer that is the strides of its coordinates
/// away from the start.
pub proof fn law_pixel_of_a_mutable_view<Buffer, P: Pixel>(
    view: ViewMut<Buffer, P>,
    x: u32,
    y: u32,
    channels: u8,
    pixel: P,
    c: int,
) where Buffer: AsSamplesMut<Sample = P::Subpixel>
    requires
        call_ensures(P::channel_count, (), channels),
        call_ensures(ViewMut::<Buffer, P>::get_pixel, (&view, x, y), pixel),
    ensures
        pixel.samples().len() == channels,
        0 <= c < channels ==> pixel.samples()[c] == view@.samples.samples()[c
            * view@.format.channel_stride + x * view@.format.width_stride + y
            * view@.format.height_stride],
{
}

/// A sample can be read exactly if it is in bounds, and is the one in the viewed buffer that is the
/// strides of its coordinates away from the start. The samples of a pixel are those that can be
/// read one by one.
pub proof fn law_sample_of_a_mutable_view<Buffer, P: Pixel>(
    view: ViewMut<Buffer, P>,
    c: u8,
    x: u32,
    y: u32,
    sample: Option<&P::Subpixel>,
    pixel: P,
) where Buffer: AsSamplesMut<Sample = P::Subpixel>
    requires
        view.wf(),
        call_ensures(ViewMut::<Buffer, P>::get_sample, (&view, c, x, y), sample),
        call_ensures(ViewMut::<Buffer, P>::get_pixel, (&view, x, y), pixel),
    ensures
        sample is Some <==> c < view@.format.channels && x < view@.format.width && y
            < view@.format.height,
        sample matches Some(sample) ==> *sample == view@.samples.samples()[c
            * view@.format.channel_stride + x * view@.format.width_stride + y
            * view@.format.height_stride],
        sample matches Some(sample) ==> c < pixel.samples().len() && *sample
            == pixel.samples()[c as int],
{
}

/// What a mutable view gives access to: the buffer, its dimensions and its image.
pub proof fn law_mutable_view_tells_its_buffer<Buffer, P: Pixel>(
    view: ViewMut<Buffer, P>,
    flat: &FlatSamples<Buffer>,
    taken: FlatSamples<Buffer>,
    samples: &Buffer,
    length: usize,
    image: &[P::Subpixel],
    i: int,
) where Buffer: AsSamplesMut<Sample = P::Subpixel>
    requires
        view.wf(),
        call_ensures(ViewMut::<Buffer, P>::flat, (&view,), flat),
        call_ensures(ViewMut::<Buffer, P>::into_inner, (view,), taken),
        call_ensures(ViewMut::<Buffer, P>::samples, (&view,), samples),
        call_ensures(ViewMut::<Buffer, P>::min_length, (&view,), length),
        call_ensures(ViewMut::<Buffer, P>::image_slice, (&view,), image),
    ensures
        *flat == view@,
        taken == view@,
        *samples == view@.samples,
        forall|l: Option<usize>| #[trigger]
            call_ensures(SampleLayout::min_length, (&view@.format,), l) ==> l == Some(length),
        image@.len() == length,
        0 <= i < length ==> image@[i] == view@.samples.samples()[i],
{
    crate::view::lemma_bounds_fit::<P>(view@.format, view@.samples.samples().len());
    view@.samples.lemma_length_fits();
    super::lemma_span_nonnegative(view@.format);
}

/// The width and height of a mutable view are those of the layout, and the pixels in bounds are
/// those below.
pub proof fn law_mutable_view_dimensions<Buffer, P: Pixel>(
    view: ViewMut<Buffer, P>,
    dimensions: (u32, u32),
    bounds: (u32, u32, u32, u32),
    x: u32,
    y: u32,
    inside: bool,
    inner: &ViewMut<Buffer, P>,
) where Buffer: AsSamplesMut<Sample = P::Subpixel>
    requires
        call_ensures(ViewMut::<Buffer, P>::dimensions, (&view,), dimensions),
        call_ensures(ViewMut::<Buffer, P>::bounds, (&view,), bounds),
        call_ensures(ViewMut::<Buffer, P>::in_bounds, (&view, x, y), inside),
        call_ensures(ViewMut::<Buffer, P>::inner, (&view,), inner),
    ensures
        dimensions == (view@.format.width, view@.format.height),
        bounds == (0u32, view@.format.width, 0u32, view@.format.height),
        inside <==> x < view@.format.width && y < view@.format.height,
        *inner == view,
{
}

/// A mutable view is valid as long as it is without aliasing and with packed pixels when it has
/// all channels of the pixels, and the buffer holds every sample of each pixel in bounds.
pub proof fn law_valid_mutable_views<Buffer, P: Pixel>(
    view: ViewMut<Buffer, P>,
    channels: u8,
    full: SampleLayout,
    aliased: bool,
    length: Option<usize>,
) where Buffer: AsSamplesMut<Sample = P::Subpixel>
    requires
        call_ensures(P::channel_count, (), channels),
        full == (SampleLayout { channels, ..view@.format }),
        call_ensures(SampleLayout::has_aliased_samples, (&full,), aliased),
        call_ensures(SampleLayout::min_length, (&full,), length),
    ensures
        view.wf() <==> {
            &&& view@.format.channels <= channels
            &&& !aliased
            &&& view@.format.channel_stride == 1
            &&& length is Some && length->0 <= view@.samples.samples().len()
        },
{
    view@.samples.lemma_length_fits();
}

/// What can be read from a valid mutable view: all of it, with any pixel in bounds.
pub proof fn law_mutable_view_can_be_read<Buffer, P: Pixel>(
    view: ViewMut<Buffer, P>,
    c: u8,
    x: u32,
    y: u32,
) where Buffer: AsSamplesMut<Sample = P::Subpixel>
    requires
        view.wf(),
    ensures
        call_requires(ViewMut::<Buffer, P>::get_sample, (&view, c, x, y)),
        call_requires(ViewMut::<Buffer, P>::min_length, (&view,)),
        call_requires(ViewMut::<Buffer, P>::image_slice, (&view,)),
        view@.format.channels > 0 && x < view@.format.width && y < view@.format.height
            ==> call_requires(ViewMut::<Buffer, P>::get_pixel, (&view, x, y)),
{
}

/// What can be written to a valid mutable view: all of it, at any pixel in bounds.
pub proof fn law_mutable_view_can_be_written<P: Blend>(
    view: &mut ViewMut<&mut [P::Subpixel], P>,
    c: u8,
    x: u32,
    y: u32,
    pixel: P,
    channels: u8,
    width: u32,
    height: u32,
)
    requires
        old(view).wf(),
    ensures
        call_requires(ViewMut::<&mut [P::Subpixel], P>::get_mut_sample, (view, c, x, y)),
        call_requires(ViewMut::<&mut [P::Subpixel], P>::image_mut_slice, (view,)),
        call_requires(ViewMut::<&mut [P::Subpixel], P>::shrink_to, (view, channels, width, height)),
        old(view)@.format.channels > 0 && x < old(view)@.format.width && y
            < old(view)@.format.height ==> {
            &&& call_requires(ViewMut::<&mut [P::Subpixel], P>::get_pixel_mut, (view, x, y))
            &&& call_requires(ViewMut::<&mut [P::Subpixel], P>::put_pixel, (view, x, y, pixel))
            &&& call_requires(ViewMut::<&mut [P::Subpixel], P>::blend_pixel, (view, x, y, pixel))
        },
{
}

/// Shrinking a mutable view shrinks its layout, keeps the samples, and leaves the pixels that
/// remain in bounds as they were.
pub proof fn law_shrinking_a_mutable_view<Buffer, P: Pixel>(
    view: &mut ViewMut<Buffer, P>,
    layout: &mut SampleLayout,
    channels: u8,
    width: u32,
    height: u32,
    x: u32,
    y: u32,
    before: P,
    after: P,
) where Buffer: AsSamplesMut<Sample = P::Subpixel>
    requires
        old(view).wf(),
        old(view)@.format == *old(layout),
        call_ensures(ViewMut::<Buffer, P>::shrink_to, (view, channels, width, height), ()),
        call_ensures(SampleLayout::shrink_to, (layout, channels, width, height), ()),
        call_ensures(ViewMut::<Buffer, P>::get_pixel, (&*old(view), x, y), before),
        call_ensures(ViewMut::<Buffer, P>::get_pixel, (&*final(view), x, y), after),
    ensures
        call_requires(ViewMut::<Buffer, P>::shrink_to, (view, channels, width, height)),
        final(view).wf(),
        final(view)@.format == *final(layout),
        final(view)@.samples == old(view)@.samples,
        final(view)@.color_hint == old(view)@.color_hint,
        after == before,
{
    assert(after.samples() =~= before.samples());
    after.lemma_samples_determine_pixel(before);
}

/// The underlying image of a mutable view is the view itself.
pub proof fn law_mutable_view_is_its_inner<Buffer, P: Pixel>(
    view: &mut ViewMut<Buffer, P>,
    inner: &mut ViewMut<Buffer, P>,
) where Buffer: AsSamplesMut<Sample = P::Subpixel>
    requires
        call_ensures(ViewMut::<Buffer, P>::inner_mut, (view,), inner),
    ensures
        *old(inner) == *old(view),
        *final(view) == *final(inner),
{
}

/// A sample can be modified exactly if it is in bounds, which changes what is at its position in
/// the buffer and nothing else.
pub proof fn law_writing_a_sample<P: Pixel>(
    view: &mut ViewMut<&mut [P::Subpixel], P>,
    c: u8,
    x: u32,
    y: u32,
    sample: Option<&mut P::Subpixel>,
    i: int,
)
    requires
        old(view).wf(),
        call_ensures(ViewMut::<&mut [P::Subpixel], P>::get_mut_sample, (view, c, x, y), sample),
    ensures
        sample is Some <==> c < old(view)@.format.channels && x < old(view)@.format.width && y
            < old(view)@.format.height,
        sample is None ==> *final(view) == *old(view),
        sample matches Some(sample) ==> {
            let before = old(view)@.samples@;
            let after = final(view)@.samples@;
            let position = c * old(view)@.format.channel_stride + x * old(view)@.format.width_stride
                + y * old(view)@.format.height_stride;
            &&& 0 <= position < before.len()
            &&& *sample == before[position]
            &&& after.len() == before.len()
            &&& after[position] == *final(sample)
            &&& 0 <= i < before.len() && i != position ==> after[i] == before[i]
            &&& final(view).wf()
            &&& final(view)@.format == old(view)@.format
            &&& final(view)@.color_hint == old(view)@.color_hint
            &&& (*final(final(view)@.samples))@ == (*final(old(view)@.samples))@
        },
{
    crate::view::lemma_bounds_fit::<P>(old(view)@.format, old(view)@.samples@.len());
}

/// The image that can be modified is the first `min_length` samples of the buffer. The samples
/// after it stay as they are.
pub proof fn law_writing_the_image<P: Pixel>(
    view: &mut ViewMut<&mut [P::Subpixel], P>,
    length: Option<usize>,
    image: &mut [P::Subpixel],
    i: int,
)
    requires
        old(view).wf(),
        call_ensures(SampleLayout::min_length, (&old(view)@.format,), length),
        call_ensures(ViewMut::<&mut [P::Subpixel], P>::image_mut_slice, (view,), image),
    ensures
        length is Some,
        old(image)@.len() == length->0,
        final(view)@.format == old(view)@.format,
        final(view)@.color_hint == old(view)@.color_hint,
        (*final(final(view)@.samples))@ == (*final(old(view)@.samples))@,
        ({
            let before = old(view)@.samples@;
            let after = final(view)@.samples@;
            &&& 0 <= i < old(image)@.len() ==> old(image)@[i] == before[i]
            &&& final(image)@.len() == old(image)@.len() ==> {
                &&& final(view).wf()
                &&& after.len() == before.len()
                &&& 0 <= i < old(image)@.len() ==> after[i] == final(image)@[i]
                &&& old(image)@.len() <= i < before.len() ==> after[i] == before[i]
            }
        }),
{
    old(view)@.samples.lemma_length_fits();
    crate::view::lemma_bounds_fit::<P>(old(view)@.format, old(view)@.samples@.len());
    super::lemma_span_nonnegative(old(view)@.format);
}

/// The samples of a pixel that can be modified are adjacent, from the position of the first one.
/// Modifying them changes nothing else.
pub proof fn law_writing_the_samples_of_a_pixel<P: Pixel>(
    view: &mut ViewMut<&mut [P::Subpixel], P>,
    x: u32,
    y: u32,
    channels: u8,
    pixel: &mut [P::Subpixel],
    i: int,
)
    requires
        old(view).wf(),
        old(view)@.format.channels > 0,
        x < old(view)@.format.width && y < old(view)@.format.height,
        call_ensures(P::channel_count, (), channels),
        call_ensures(ViewMut::<&mut [P::Subpixel], P>::get_pixel_mut, (view, x, y), pixel),
    ensures
        ({
            let before = old(view)@.samples@;
            let after = final(view)@.samples@;
            let start = x * old(view)@.format.width_stride + y * old(view)@.format.height_stride;
            &&& 0 <= start && start + channels <= before.len()
            &&& old(pixel)@.len() == channels
            &&& 0 <= i < channels ==> old(pixel)@[i] == before[start + i]
            &&& final(pixel)@.len() == channels ==> {
                &&& final(view).wf()
                &&& after.len() == before.len()
                &&& 0 <= i < channels ==> after[start + i] == final(pixel)@[i]
                &&& 0 <= i < before.len() && !(start <= i < start + channels) ==> after[i]
                    == before[i]
            }
        }),
        final(view)@.format == old(view)@.format,
        final(view)@.color_hint == old(view)@.color_hint,
        (*final(final(view)@.samples))@ == (*final(old(view)@.samples))@,
{
    crate::view_mut::law_packed_pixel_is_a_subslice::<P>(
        old(view)@.format,
        old(view)@.samples@,
        x as int,
        y as int,
    );
}

/// Putting a pixel puts its samples next to each other, from the position of the first one, and
/// changes nothing else.
pub proof fn law_putting_a_pixel<P: Pixel>(
    view: &mut ViewMut<&mut [P::Subpixel], P>,
    x: u32,
    y: u32,
    pixel: P,
    i: int,
)
    requires
        old(view).wf(),
        old(view)@.format.channels > 0,
        x < old(view)@.format.width && y < old(view)@.format.height,
        call_ensures(ViewMut::<&mut [P::Subpixel], P>::put_pixel, (view, x, y, pixel), ()),
    ensures
        ({
            let before = old(view)@.samples@;
            let after = final(view)@.samples@;
            let start = x * old(view)@.format.width_stride + y * old(view)@.format.height_stride;
            let end = start + pixel.samples().len();
            &&& 0 <= start && end <= before.len()
            &&& after.len() == before.len()
            &&& start <= i < end ==> after[i] == pixel.samples()[i - start]
            &&& 0 <= i < start || end <= i < before.len() ==> after[i] == before[i]
        }),
        final(view).wf(),
        final(view)@.format == old(view)@.format,
        final(view)@.color_hint == old(view)@.color_hint,
        (*final(final(view)@.samples))@ == (*final(old(view)@.samples))@,
{
    pixel.lemma_one_sample_per_channel();
    crate::view_mut::law_packed_pixel_is_a_subslice::<P>(
        old(view)@.format,
        old(view)@.samples@,
        x as int,
        y as int,
    );
}

/// A pixel that was put is the one that is got, and every other pixel is got as before.
pub proof fn law_put_pixel_is_got<P: Pixel>(
    view: &mut ViewMut<&mut [P::Subpixel], P>,
    x: u32,
    y: u32,
    pixel: P,
    x2: u32,
    y2: u32,
    before: P,
    after: P,
)
    requires
        old(view).wf(),
        old(view)@.format.channels > 0,
        x < old(view)@.format.width && y < old(view)@.format.height,
        x2 < old(view)@.format.width && y2 < old(view)@.format.height,
        call_ensures(ViewMut::<&mut [P::Subpixel], P>::put_pixel, (view, x, y, pixel), ()),
        call_ensures(ViewMut::<&mut [P::Subpixel], P>::get_pixel, (&*old(view), x2, y2), before),
        call_ensures(ViewMut::<&mut [P::Subpixel], P>::get_pixel, (&*final(view), x2, y2), after),
    ensures
        after == if x == x2 && y == y2 {
            pixel
        } else {
            before
        },
{
    let format = old(view)@.format;
    let samples = old(view)@.samples@;
    let (i, j, k, l) = (x as int, y as int, x2 as int, y2 as int);
    if x == x2 && y == y2 {
        crate::view_mut::law_written_pixel_is_read_back::<P>(format, samples, i, j, pixel);
        after.lemma_samples_determine_pixel(pixel);
    } else {
        crate::view_mut::law_writing_keeps_other_pixels::<P>(format, samples, i, j, pixel, k, l);
        after.lemma_samples_determine_pixel(before);
    }
}

/// Blending a pixel puts what it gives when it is blended over the pixel that is there.
pub proof fn law_blending_a_pixel<P: Blend>(
    view: &mut ViewMut<&mut [P::Subpixel], P>,
    x: u32,
    y: u32,
    pixel: P,
    below: P,
    blended: &mut P,
    i: int,
)
    requires
        old(view).wf(),
        old(view)@.format.channels > 0,
        x < old(view)@.format.width && y < old(view)@.format.height,
        call_ensures(ViewMut::<&mut [P::Subpixel], P>::get_pixel, (&*old(view), x, y), below),
        *old(blended) == below,
        call_ensures(P::blend, (blended, &pixel), ()),
        call_ensures(ViewMut::<&mut [P::Subpixel], P>::blend_pixel, (view, x, y, pixel), ()),
    ensures
        ({
            let before = old(view)@.samples@;
            let after = final(view)@.samples@;
            let start = x * old(view)@.format.width_stride + y * old(view)@.format.height_stride;
            let end = start + final(blended).samples().len();
            &&& 0 <= start && end <= before.len()
            &&& after.len() == before.len()
            &&& start <= i < end ==> after[i] == final(blended).samples()[i - start]
            &&& 0 <= i < start || end <= i < before.len() ==> after[i] == before[i]
        }),
        final(view).wf(),
        final(view)@.format == old(view)@.format,
        final(view)@.color_hint == old(view)@.color_hint,
        (*final(final(view)@.samples))@ == (*final(old(view)@.samples))@,
{
    let format = old(view)@.format;
    let samples = old(view)@.samples@;
    let (i, j) = (x as int, y as int);
    let found = choose|found: P|
        {
            &&& found.samples() == crate::view::pixel_samples::<P>(format, samples, i, j)
            &&& final(view)@.samples@ == crate::view_mut::with_pixel::<P>(
                format,
                samples,
                i,
                j,
                (#[trigger] found.spec_blended(pixel)).samples(),
            )
        };
    found.lemma_samples_determine_pixel(below);
    final(blended).lemma_one_sample_per_channel();
    crate::view_mut::law_packed_pixel_is_a_subslice::<P>(format, samples, i, j);
}

} // verus!
