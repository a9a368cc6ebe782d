//! What the methods of a layout return, in terms of its strides and extents and of each other.

use vstd::prelude::*;

use crate::flat::FlatSamples;
use crate::layout::SampleLayout;
use crate::normal_form::NormalForm;

verus! {

/// Strides, extents and bounds are told in the order of channel, width and height.
pub proof fn law_layout_is_told(
    layout: SampleLayout,
    strides: (usize, usize, usize),
    extents: (usize, usize, usize),
    bounds: (u8, u32, u32),
)
    requires
        call_ensures(SampleLayout::strides_cwh, (&layout,), strides),
        call_ensures(SampleLayout::extents, (&layout,), extents),
        call_ensures(SampleLayout::bounds, (&layout,), bounds),
    ensures
        strides.0 == layout.channel_stride,
        strides.1 == layout.width_stride,
        strides.2 == layout.height_stride,
        extents.0 == layout.channels,
        extents.1 == layout.width,
        extents.2 == layout.height,
        bounds.0 == layout.channels,
        bounds.1 == layout.width,
        bounds.2 == layout.height,
{
}

/// A sample is in bounds if each coordinate is less than the extent, and has an index if that fits
/// into a `usize` besides.
pub proof fn law_index_of_a_sample(
    layout: SampleLayout,
    c: u8,
    x: u32,
    y: u32,
    inside: bool,
    index: Option<usize>,
)
    requires
        call_ensures(SampleLayout::in_bounds, (&layout, c, x, y), inside),
        call_ensures(SampleLayout::index, (&layout, c, x, y), index),
    ensures
        inside <==> c < layout.channels && x < layout.width && y < layout.height,
        ({
            let position = c * layout.channel_stride + x * layout.width_stride + y
                * layout.height_stride;
            &&& index is Some <==> inside && position <= usize::MAX
            &&& index matches Some(i) ==> i == position
        }),
{
}

/// The first sample is at the start of the buffer, and adding a stride to an index leads to the
/// next sample in that direction.
pub proof fn law_strides_lead_to_neighbours(
    layout: SampleLayout,
    c: u8,
    x: u32,
    y: u32,
    first: Option<usize>,
    index: usize,
    next_channel: Option<usize>,
    next_column: Option<usize>,
    next_row: Option<usize>,
)
    requires
        c < u8::MAX,
        x < u32::MAX,
        y < u32::MAX,
        call_ensures(SampleLayout::index, (&layout, 0u8, 0u32, 0u32), first),
        call_ensures(SampleLayout::index, (&layout, c, x, y), Some(index)),
        call_ensures(SampleLayout::index, (&layout, (c + 1) as u8, x, y), next_channel),
        call_ensures(SampleLayout::index, (&layout, c, (x + 1) as u32, y), next_column),
        call_ensures(SampleLayout::index, (&layout, c, x, (y + 1) as u32), next_row),
    ensures
        first == Some(0usize),
        next_channel is Some <==> c + 1 < layout.channels && index + layout.channel_stride
            <= usize::MAX,
        next_channel matches Some(next) ==> next == index + layout.channel_stride,
        next_column is Some <==> x + 1 < layout.width && index + layout.width_stride <= usize::MAX,
        next_column matches Some(next) ==> next == index + layout.width_stride,
        next_row is Some <==> y + 1 < layout.height && index + layout.height_stride <= usize::MAX,
        next_row matches Some(next) ==> next == index + layout.height_stride,
{
    let (cs, ws, hs) = (
        layout.channel_stride as int,
        layout.width_stride as int,
        layout.height_stride as int,
    );
    vstd::arithmetic::mul::lemma_mul_is_distributive_add_other_way(cs, c as int, 1);
    vstd::arithmetic::mul::lemma_mul_is_distributive_add_other_way(ws, x as int, 1);
    vstd::arithmetic::mul::lemma_mul_is_distributive_add_other_way(hs, y as int, 1);
}

/// Without regard to the bounds, the index of a sample is the sum of each coordinate times its
/// stride. Inside the bounds it is what `index` and `in_bounds_index` give.
pub proof fn law_index_ignoring_bounds(
    layout: SampleLayout,
    c: usize,
    x: usize,
    y: usize,
    theoretical: Option<usize>,
    index: Option<usize>,
    plain: usize,
)
    requires
        call_ensures(SampleLayout::index_ignoring_bounds, (&layout, c, x, y), theoretical),
        c < layout.channels && x < layout.width && y < layout.height ==> call_ensures(
            SampleLayout::index,
            (&layout, c as u8, x as u32, y as u32),
            index,
        ),
        c < layout.channels && x < layout.width && y < layout.height && theoretical is Some
            ==> call_ensures(
            SampleLayout::in_bounds_index,
            (&layout, c as u8, x as u32, y as u32),
            plain,
        ),
    ensures
        ({
            let position = c * layout.channel_stride + x * layout.width_stride + y
                * layout.height_stride;
            &&& theoretical is Some <==> position <= usize::MAX
            &&& theoretical matches Some(i) ==> i == position
        }),
        c < layout.channels && x < layout.width && y < layout.height ==> index == theoretical,
        c < layout.channels && x < layout.width && y < layout.height && theoretical is Some
            ==> theoretical == Some(plain),
{
}

/// `in_bounds_index` can be called wherever `index` gives an index, which it gives too.
pub proof fn law_in_bounds_index(layout: SampleLayout, c: u8, x: u32, y: u32, index: usize)
    requires
        call_ensures(SampleLayout::index, (&layout, c, x, y), Some(index)),
    ensures
        call_requires(SampleLayout::in_bounds_index, (&layout, c, x, y)),
        forall|plain: usize| #[trigger]
            call_ensures(SampleLayout::in_bounds_index, (&layout, c, x, y), plain) ==> plain
                == index,
{
}

/// `min_length` is one more than the position of the last sample, and zero without samples. There
/// is none exactly where that does not fit into a `usize`.
pub proof fn law_min_length_is_past_the_last_sample(layout: SampleLayout, length: Option<usize>)
    requires
        call_ensures(SampleLayout::min_length, (&layout,), length),
    ensures
        layout.channels == 0 || layout.width == 0 || layout.height == 0 ==> length == Some(0usize),
        layout.channels > 0 && layout.width > 0 && layout.height > 0 ==> {
            let last = (layout.channels - 1) * layout.channel_stride + (layout.width - 1)
                * layout.width_stride + (layout.height - 1) * layout.height_stride;
            &&& length is Some <==> last < usize::MAX
            &&& length matches Some(n) ==> n == last + 1
        },
{
}

/// A buffer of `min_length` samples holds every sample in bounds, and a shorter one does not hold
/// the last.
pub proof fn law_min_length_is_needed_and_enough(
    layout: SampleLayout,
    length: usize,
    c: u8,
    x: u32,
    y: u32,
    index: Option<usize>,
)
    requires
        c < layout.channels && x < layout.width && y < layout.height,
        call_ensures(SampleLayout::min_length, (&layout,), Some(length)),
        call_ensures(SampleLayout::index, (&layout, c, x, y), index),
    ensures
        index is Some,
        index->0 < length,
        c == layout.channels - 1 && x == layout.width - 1 && y == layout.height - 1 ==> index->0
            == length - 1,
{
    super::law_min_length_is_least(layout, length as nat);
    assert(layout.contains(c as int, x as int, y as int));
    assert(layout.offset(c as int, x as int, y as int) < length);
}

/// A buffer is large enough exactly if it is as long as `min_length`.
pub proof fn law_buffer_fits(layout: SampleLayout, len: usize, length: Option<usize>, fits: bool)
    requires
        call_ensures(SampleLayout::min_length, (&layout,), length),
        call_ensures(SampleLayout::fits, (&layout, len), fits),
    ensures
        fits <==> length is Some && length->0 <= len,
{
}

/// Every sample in bounds has an index inside a buffer that is large enough.
pub proof fn law_samples_of_a_fitting_buffer(
    layout: SampleLayout,
    len: usize,
    c: u8,
    x: u32,
    y: u32,
    index: Option<usize>,
)
    requires
        call_ensures(SampleLayout::fits, (&layout, len), true),
        c < layout.channels && x < layout.width && y < layout.height,
        call_ensures(SampleLayout::index, (&layout, c, x, y), index),
    ensures
        index is Some,
        index->0 < len,
{
    super::law_min_length_is_least(layout, len as nat);
    assert(layout.contains(c as int, x as int, y as int));
    assert(layout.offset(c as int, x as int, y as int) < len);
}

/// A buffer that is not large enough misses some sample in bounds.
pub proof fn law_sample_beyond_a_short_buffer(layout: SampleLayout, len: usize) -> (sample: (
    int,
    int,
    int,
))
    requires
        call_ensures(SampleLayout::fits, (&layout, len), false),
    ensures
        0 <= sample.0 < layout.channels,
        0 <= sample.1 < layout.width,
        0 <= sample.2 < layout.height,
        sample.0 * layout.channel_stride + sample.1 * layout.width_stride + sample.2
            * layout.height_stride >= len,
{
    (layout.channels - 1, layout.width - 1, layout.height - 1)
}

/// Where `has_aliased_samples` is false, two samples in bounds at one position are the same sample.
pub proof fn law_no_aliasing_no_shared_position(
    layout: SampleLayout,
    c: int,
    x: int,
    y: int,
    c2: int,
    x2: int,
    y2: int,
)
    requires
        call_ensures(SampleLayout::has_aliased_samples, (&layout,), false),
        0 <= c < layout.channels && 0 <= x < layout.width && 0 <= y < layout.height,
        0 <= c2 < layout.channels && 0 <= x2 < layout.width && 0 <= y2 < layout.height,
        c * layout.channel_stride + x * layout.width_stride + y * layout.height_stride == c2
            * layout.channel_stride + x2 * layout.width_stride + y2 * layout.height_stride,
    ensures
        c == c2 && x == x2 && y == y2,
{
    super::law_unaliased_samples_are_distinct(layout, c, x, y, c2, x2, y2);
}

/// Where `has_aliased_samples` is true although each dimension and `min_length` fit into a `usize`,
/// there are two different samples in bounds at one position.
pub proof fn law_aliasing_has_a_witness(layout: SampleLayout, length: usize) -> (samples: (
    (int, int, int),
    (int, int, int),
))
    requires
        call_ensures(SampleLayout::has_aliased_samples, (&layout,), true),
        layout.channel_stride * layout.channels <= usize::MAX,
        layout.width_stride * layout.width <= usize::MAX,
        layout.height_stride * layout.height <= usize::MAX,
        call_ensures(SampleLayout::min_length, (&layout,), Some(length)),
    ensures
        ({
            let ((c, x, y), (c2, x2, y2)) = samples;
            &&& samples.0 != samples.1
            &&& 0 <= c < layout.channels && 0 <= x < layout.width && 0 <= y < layout.height
            &&& 0 <= c2 < layout.channels && 0 <= x2 < layout.width && 0 <= y2 < layout.height
            &&& c * layout.channel_stride + x * layout.width_stride + y * layout.height_stride
                == c2 * layout.channel_stride + x2 * layout.width_stride + y2
                * layout.height_stride
        }),
{
    let (c, x, y, c2, x2, y2) = choose|c: int, x: int, y: int, c2: int, x2: int, y2: int|
        {
            &&& layout.contains(c, x, y)
            &&& layout.contains(c2, x2, y2)
            &&& #[trigger] layout.offset(c, x, y) == #[trigger] layout.offset(c2, x2, y2)
            &&& (c, x, y) != (c2, x2, y2)
        };
    ((c, x, y), (c2, x2, y2))
}

/// A dimension that overflows `usize` counts as aliasing, and so does a `min_length` that does.
pub proof fn law_overflow_is_aliasing(
    layout: SampleLayout,
    aliased: bool,
    length: Option<usize>,
)
    requires
        call_ensures(SampleLayout::has_aliased_samples, (&layout,), aliased),
        call_ensures(SampleLayout::min_length, (&layout,), length),
        layout.channel_stride * layout.channels > usize::MAX || layout.width_stride * layout.width
            > usize::MAX || layout.height_stride * layout.height > usize::MAX || length is None,
    ensures
        aliased,
{
}

/// Where of each two dimensions one has a stride as large as all of the other, and no stride is
/// zero, no samples are aliased: in planar images as in those with packed pixels, with holes or
/// without.
pub proof fn law_walking_over_is_no_aliasing(layout: SampleLayout, aliased: bool)
    requires
        call_ensures(SampleLayout::has_aliased_samples, (&layout,), aliased),
        ({
            let (c, w, h) = (
                layout.channel_stride * layout.channels,
                layout.width_stride * layout.width,
                layout.height_stride * layout.height,
            );
            &&& c <= usize::MAX && w <= usize::MAX && h <= usize::MAX
            &&& layout.channel_stride > 0 && layout.width_stride > 0 && layout.height_stride > 0
            &&& c <= layout.width_stride || w <= layout.channel_stride
            &&& c <= layout.height_stride || h <= layout.channel_stride
            &&& w <= layout.height_stride || h <= layout.width_stride
        }),
    ensures
        !aliased,
{
    if layout.is_empty() {
        super::law_empty_image_has_no_aliasing(layout);
    } else {
        let (c, w, h) = (layout.channel_dim(), layout.width_dim(), layout.height_dim());
        lemma_one_walks_over(c, w);
        lemma_one_walks_over(c, h);
        lemma_one_walks_over(w, h);
        super::law_nested_is_unaliased(layout);
    }
}

/// If one of two dimensions walks over the other, it is the larger one that does.
proof fn lemma_one_walks_over(a: (int, int), b: (int, int))
    requires
        0 < a.0 && 0 < b.0,
        0 < a.1 && 0 < b.1,
        a.0 * a.1 <= b.0 || b.0 * b.1 <= a.0,
    ensures
        crate::layout::dim_walks_over(a, b),
{
    assert(a.1 > 1 ==> a.0 * a.1 > a.0) by (nonlinear_arith)
        requires
            a.0 > 0,
    ;
    assert(b.1 > 1 ==> b.0 * b.1 > b.0) by (nonlinear_arith)
        requires
            b.0 > 0,
    ;
}

/// A layout is unaliased if `has_aliased_samples` says so, and its pixels are packed if the
/// channel stride is one besides, however many channels there are.
pub proof fn law_unaliased_and_pixel_packed(
    layout: SampleLayout,
    aliased: bool,
    unaliased: bool,
    pixel_packed: bool,
)
    requires
        call_ensures(SampleLayout::has_aliased_samples, (&layout,), aliased),
        call_ensures(SampleLayout::is_normal, (&layout, NormalForm::Unaliased), unaliased),
        call_ensures(SampleLayout::is_normal, (&layout, NormalForm::PixelPacked), pixel_packed),
    ensures
        unaliased == !aliased,
        pixel_packed == (!aliased && layout.channel_stride == 1),
{
}

/// An unaliased layout is packed exactly if, of its dimensions in increasing order, the first has a
/// stride of one and each other starts where the one before it ends.
///
/// A dimension is a (stride, extent) pair.
pub proof fn law_image_packed_in_order(
    layout: SampleLayout,
    a: (int, int),
    b: (int, int),
    d: (int, int),
    aliased: bool,
    packed: bool,
)
    requires
        ({
            let c = (layout.channel_stride as int, layout.channels as int);
            let w = (layout.width_stride as int, layout.width as int);
            let h = (layout.height_stride as int, layout.height as int);
            ||| (a, b, d) == (c, w, h)
            ||| (a, b, d) == (c, h, w)
            ||| (a, b, d) == (w, c, h)
            ||| (a, b, d) == (w, h, c)
            ||| (a, b, d) == (h, c, w)
            ||| (a, b, d) == (h, w, c)
        }),
        a.0 < b.0 || a.0 == b.0 && a.1 <= b.1,
        b.0 < d.0 || b.0 == d.0 && b.1 <= d.1,
        call_ensures(SampleLayout::has_aliased_samples, (&layout,), aliased),
        call_ensures(SampleLayout::is_normal, (&layout, NormalForm::ImagePacked), packed),
    ensures
        packed == (!aliased && a.0 == 1 && b.0 == a.0 * a.1 && d.0 == b.0 * b.1),
{
}

/// A packed layout with samples needs a buffer of one element for each of them. Where there are
/// several samples in each dimension, an unaliased layout that needs no more is packed.
pub proof fn law_image_packed_is_compact(
    layout: SampleLayout,
    aliased: bool,
    length: Option<usize>,
    packed: bool,
)
    requires
        call_ensures(SampleLayout::has_aliased_samples, (&layout,), aliased),
        call_ensures(SampleLayout::min_length, (&layout,), length),
        call_ensures(SampleLayout::is_normal, (&layout, NormalForm::ImagePacked), packed),
    ensures
        packed ==> !aliased && length is Some && length->0 == layout.width * layout.height
            * layout.channels,
        layout.channels > 1 && layout.width > 1 && layout.height > 1 && !aliased && length is Some
            && length->0 == layout.width * layout.height * layout.channels ==> packed,
{
    if packed {
        super::law_packed_min_length(layout);
    }
    if layout.channels > 1 && layout.width > 1 && layout.height > 1 && !aliased && length is Some
        && length->0 == layout.width * layout.height * layout.channels {
        super::law_no_holes_is_packed(layout);
    }
}

/// Every position in the buffer of a packed layout is that of a sample.
pub proof fn law_image_packed_has_no_holes(layout: SampleLayout, length: usize, i: int) -> (sample:
    (int, int, int))
    requires
        call_ensures(SampleLayout::is_normal, (&layout, NormalForm::ImagePacked), true),
        call_ensures(SampleLayout::min_length, (&layout,), Some(length)),
        0 <= i < length,
    ensures
        0 <= sample.0 < layout.channels,
        0 <= sample.1 < layout.width,
        0 <= sample.2 < layout.height,
        sample.0 * layout.channel_stride + sample.1 * layout.width_stride + sample.2
            * layout.height_stride == i,
{
    super::law_packed_has_no_holes(layout, i);
    let (c, x, y) = choose|c: int, x: int, y: int|
        layout.contains(c, x, y) && #[trigger] layout.offset(c, x, y) == i;
    (c, x, y)
}

/// An image that is not empty is in row-major form exactly if its pixels are `channels` apart, its
/// rows `width*channels`, and all of it fits into a `usize`, for any number of channels.
pub proof fn law_row_major_strides(layout: SampleLayout, normal: bool)
    requires
        call_ensures(SampleLayout::is_normal, (&layout, NormalForm::RowMajorPacked), normal),
        layout.channels > 0 && layout.width > 0 && layout.height > 0,
    ensures
        normal <==> {
            &&& layout.channel_stride == 1
            &&& layout.width_stride == layout.channels
            &&& layout.height_stride == layout.width * layout.channels
            &&& layout.width * layout.channels * layout.height <= usize::MAX
        },
{
    let (c, w, h) = (layout.channel_dim(), layout.width_dim(), layout.height_dim());
    if layout.channel_stride == 1 && layout.width_stride == layout.channels && layout.height_stride
        == layout.width * layout.channels && layout.width * layout.channels * layout.height
        <= usize::MAX {
        lemma_grouped_dims(c, w, h);
        super::law_nested_is_unaliased(layout);
    }
}

/// An image that is not empty is in column-major form exactly if its pixels are `channels` apart,
/// its columns `height*channels`, and all of it fits into a `usize`, for any number of channels.
pub proof fn law_column_major_strides(layout: SampleLayout, normal: bool)
    requires
        call_ensures(SampleLayout::is_normal, (&layout, NormalForm::ColumnMajorPacked), normal),
        layout.channels > 0 && layout.width > 0 && layout.height > 0,
    ensures
        normal <==> {
            &&& layout.channel_stride == 1
            &&& layout.height_stride == layout.channels
            &&& layout.width_stride == layout.height * layout.channels
            &&& layout.height * layout.channels * layout.width <= usize::MAX
        },
{
    let (c, w, h) = (layout.channel_dim(), layout.width_dim(), layout.height_dim());
    if layout.channel_stride == 1 && layout.height_stride == layout.channels && layout.width_stride
        == layout.height * layout.channels && layout.height * layout.channels * layout.width
        <= usize::MAX {
        lemma_grouped_dims(c, h, w);
        super::law_nested_is_unaliased(layout);
    }
}

/// Dimensions of which each starts where the one before it ends are in increasing order, and each
/// walks over those before it.
pub(super) proof fn lemma_grouped_dims(a: (int, int), b: (int, int), c: (int, int))
    requires
        0 < a.1 && 0 < b.1 && 0 < c.1,
        a.0 == 1,
        b.0 == a.1,
        c.0 == b.1 * a.1,
    ensures
        crate::layout::dims_packed(a, b, c),
        crate::layout::dim_walks_over(a, b),
        crate::layout::dim_walks_over(b, a),
        crate::layout::dim_walks_over(a, c),
        crate::layout::dim_walks_over(c, a),
        crate::layout::dim_walks_over(b, c),
        crate::layout::dim_walks_over(c, b),
        a.0 * a.1 <= c.0 * c.1,
        b.0 * b.1 <= c.0 * c.1,
{
    assert(a.1 <= b.1 * a.1 && b.1 * a.1 == a.1 * b.1 && b.1 * a.1 <= (b.1 * a.1) * c.1)
        by (nonlinear_arith)
        requires
            0 < a.1 && 0 < b.1 && 0 < c.1,
    ;
    assert(b.1 > 1 ==> b.1 * a.1 > a.1) by (nonlinear_arith)
        requires
            0 < a.1,
    ;
}

/// Row-major and column-major form are those of layouts with packed pixels and packed samples in
/// which the pixels of a row, or those of a column, follow each other, and then the rows or
/// columns.
pub proof fn law_matrix_forms(
    layout: SampleLayout,
    pixel_packed: bool,
    image_packed: bool,
    row_major: bool,
    column_major: bool,
)
    requires
        call_ensures(SampleLayout::is_normal, (&layout, NormalForm::PixelPacked), pixel_packed),
        call_ensures(SampleLayout::is_normal, (&layout, NormalForm::ImagePacked), image_packed),
        call_ensures(SampleLayout::is_normal, (&layout, NormalForm::RowMajorPacked), row_major),
        call_ensures(
            SampleLayout::is_normal,
            (&layout, NormalForm::ColumnMajorPacked),
            column_major,
        ),
    ensures
        row_major == (pixel_packed && image_packed && layout.width_stride == layout.channels
            && layout.height_stride == layout.width * layout.width_stride),
        column_major == (pixel_packed && image_packed && layout.height_stride == layout.channels
            && layout.width_stride == layout.height * layout.height_stride),
{
}

/// A form that is less than another has all layouts that are in that one, and only equal forms
/// compare as equal.
pub proof fn law_forms_compare_by_layouts(
    a: NormalForm,
    b: NormalForm,
    layout: SampleLayout,
    order: Option<std::cmp::Ordering>,
    in_a: bool,
    in_b: bool,
)
    requires
        call_ensures(NormalForm::partial_cmp, (&a, &b), order),
        call_ensures(SampleLayout::is_normal, (&layout, a), in_a),
        call_ensures(SampleLayout::is_normal, (&layout, b), in_b),
    ensures
        order == Some(std::cmp::Ordering::Less) && in_b ==> in_a,
        order == Some(std::cmp::Ordering::Greater) && in_a ==> in_b,
        order == Some(std::cmp::Ordering::Equal) <==> a == b,
{
    super::law_order_is_implication(a, b);
    super::law_order_is_implication(b, a);
    super::law_normal_forms_are_partially_ordered(a, b, b);
}

/// A form that is neither less than another nor equal to it lacks some layout of that one.
pub proof fn law_incomparable_forms_differ(
    a: NormalForm,
    b: NormalForm,
    order: Option<std::cmp::Ordering>,
) -> (layout: SampleLayout)
    requires
        call_ensures(NormalForm::partial_cmp, (&a, &b), order),
        order != Some(std::cmp::Ordering::Less),
        order != Some(std::cmp::Ordering::Equal),
    ensures
        forall|in_a: bool| #[trigger]
            call_ensures(SampleLayout::is_normal, (&layout, a), in_a) ==> !in_a,
        forall|in_b: bool| #[trigger]
            call_ensures(SampleLayout::is_normal, (&layout, b), in_b) ==> in_b,
{
    super::law_order_is_implication(a, b);
    super::law_normal_forms_are_partially_ordered(a, b, b);
    choose|layout: SampleLayout| #[trigger] layout.normal(b) && !layout.normal(a)
}

/// Shrinking leaves the strides as they are and takes the smaller of the extents.
pub proof fn law_shrinking_takes_the_minimum(
    layout: &mut SampleLayout,
    channels: u8,
    width: u32,
    height: u32,
)
    requires
        call_ensures(SampleLayout::shrink_to, (layout, channels, width, height), ()),
    ensures
        final(layout).channel_stride == old(layout).channel_stride,
        final(layout).width_stride == old(layout).width_stride,
        final(layout).height_stride == old(layout).height_stride,
        final(layout).channels <= channels && final(layout).channels <= old(layout).channels,
        final(layout).channels == channels || final(layout).channels == old(layout).channels,
        final(layout).width <= width && final(layout).width <= old(layout).width,
        final(layout).width == width || final(layout).width == old(layout).width,
        final(layout).height <= height && final(layout).height <= old(layout).height,
        final(layout).height == height || final(layout).height == old(layout).height,
{
}

/// A sample of a shrunken layout is one of the layout, with the same index.
pub proof fn law_shrinking_keeps_indices(
    layout: &mut SampleLayout,
    channels: u8,
    width: u32,
    height: u32,
    c: u8,
    x: u32,
    y: u32,
    before: Option<usize>,
    after: Option<usize>,
)
    requires
        call_ensures(SampleLayout::shrink_to, (layout, channels, width, height), ()),
        call_ensures(SampleLayout::index, (&*old(layout), c, x, y), before),
        call_ensures(SampleLayout::index, (&*final(layout), c, x, y), after),
    ensures
        c < channels && x < width && y < height ==> after == before,
        c >= channels || x >= width || y >= height ==> after is None,
{
}

/// A buffer answers as its layout does.
pub proof fn law_buffer_answers_as_its_layout<Buffer>(
    flat: FlatSamples<Buffer>,
    form: NormalForm,
    len: usize,
    strides: [(usize, usize, usize); 2],
    extents: [(usize, usize, usize); 2],
    bounds: [(u8, u32, u32); 2],
    lengths: [Option<usize>; 2],
    fits: [bool; 2],
    aliased: [bool; 2],
    normal: [bool; 2],
)
    requires
        call_ensures(FlatSamples::<Buffer>::strides_cwh, (&flat,), strides[0]),
        call_ensures(SampleLayout::strides_cwh, (&flat.format,), strides[1]),
        call_ensures(FlatSamples::<Buffer>::extents, (&flat,), extents[0]),
        call_ensures(SampleLayout::extents, (&flat.format,), extents[1]),
        call_ensures(FlatSamples::<Buffer>::bounds, (&flat,), bounds[0]),
        call_ensures(SampleLayout::bounds, (&flat.format,), bounds[1]),
        call_ensures(FlatSamples::<Buffer>::min_length, (&flat,), lengths[0]),
        call_ensures(SampleLayout::min_length, (&flat.format,), lengths[1]),
        call_ensures(FlatSamples::<Buffer>::fits, (&flat, len), fits[0]),
        call_ensures(SampleLayout::fits, (&flat.format, len), fits[1]),
        call_ensures(FlatSamples::<Buffer>::has_aliased_samples, (&flat,), aliased[0]),
        call_ensures(SampleLayout::has_aliased_samples, (&flat.format,), aliased[1]),
        call_ensures(FlatSamples::<Buffer>::is_normal, (&flat, form), normal[0]),
        call_ensures(SampleLayout::is_normal, (&flat.format, form), normal[1]),
    ensures
        strides[0] == strides[1],
        extents[0] == extents[1],
        bounds[0] == bounds[1],
        lengths[0] == lengths[1],
        fits[0] == fits[1],
        aliased[0] == aliased[1],
        normal[0] == normal[1],
{
}

/// A buffer finds samples where its layout does.
pub proof fn law_buffer_indexes_as_its_layout<Buffer>(
    flat: FlatSamples<Buffer>,
    c: u8,
    x: u32,
    y: u32,
    c2: usize,
    x2: usize,
    y2: usize,
    inside: [bool; 2],
    index: [Option<usize>; 2],
    theoretical: [Option<usize>; 2],
    plain: [usize; 2],
)
    requires
        call_ensures(FlatSamples::<Buffer>::in_bounds, (&flat, c, x, y), inside[0]),
        call_ensures(SampleLayout::in_bounds, (&flat.format, c, x, y), inside[1]),
        call_ensures(FlatSamples::<Buffer>::index, (&flat, c, x, y), index[0]),
        call_ensures(SampleLayout::index, (&flat.format, c, x, y), index[1]),
        call_ensures(
            FlatSamples::<Buffer>::index_ignoring_bounds,
            (&flat, c2, x2, y2),
            theoretical[0],
        ),
        call_ensures(
            SampleLayout::index_ignoring_bounds,
            (&flat.format, c2, x2, y2),
            theoretical[1],
        ),
        index[0] is Some ==> call_ensures(
            FlatSamples::<Buffer>::in_bounds_index,
            (&flat, c, x, y),
            plain[0],
        ),
        index[0] is Some ==> call_ensures(
            SampleLayout::in_bounds_index,
            (&flat.format, c, x, y),
            plain[1],
        ),
    ensures
        inside[0] == inside[1],
        index[0] == index[1],
        theoretical[0] == theoretical[1],
        index[0] is Some ==> plain[0] == plain[1] && index[0] == Some(plain[0]) && call_requires(
            FlatSamples::<Buffer>::in_bounds_index,
            (&flat, c, x, y),
        ),
{
}

/// Shrinking a buffer shrinks its layout and leaves the rest as it is.
pub proof fn law_buffer_shrinks_as_its_layout<Buffer>(
    flat: &mut FlatSamples<Buffer>,
    layout: &mut SampleLayout,
    channels: u8,
    width: u32,
    height: u32,
)
    requires
        old(flat).format == *old(layout),
        call_ensures(FlatSamples::<Buffer>::shrink_to, (flat, channels, width, height), ()),
        call_ensures(SampleLayout::shrink_to, (layout, channels, width, height), ()),
    ensures
        final(flat).format == *final(layout),
        final(flat).samples == old(flat).samples,
        final(flat).color_hint == old(flat).color_hint,
{
}

} // verus!
