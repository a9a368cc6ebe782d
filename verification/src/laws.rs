//! What holds of every layout and of the order of normal forms.

use vstd::arithmetic::div_mod::{lemma_div_pos_is_pos, lemma_fundamental_div_mod, lemma_mod_bound};
use vstd::arithmetic::mul::{
    lemma_mul_inequality, lemma_mul_is_commutative, lemma_mul_is_distributive_add_other_way,
    lemma_mul_is_distributive_sub_other_way,
};
use vstd::prelude::*;
use vstd::std_specs::cmp::PartialOrdSpec;

use crate::lattice::steps;
use crate::layout::{dim_le, dim_walks_over, dims_packed, SampleLayout};
use crate::normal_form::NormalForm;

pub mod buffer_calls;
pub mod layout_calls;
pub mod view_calls;

verus! {

/// The positions of samples are not negative and grow with each coordinate.
proof fn lemma_offset_monotonic(
    layout: SampleLayout,
    c: int,
    x: int,
    y: int,
    c2: int,
    x2: int,
    y2: int,
)
    requires
        0 <= c <= c2,
        0 <= x <= x2,
        0 <= y <= y2,
    ensures
        0 <= layout.offset(c, x, y) <= layout.offset(c2, x2, y2),
{
    lemma_mul_inequality(c, c2, layout.channel_stride as int);
    lemma_mul_inequality(x, x2, layout.width_stride as int);
    lemma_mul_inequality(y, y2, layout.height_stride as int);
    lemma_mul_inequality(0, c, layout.channel_stride as int);
    lemma_mul_inequality(0, x, layout.width_stride as int);
    lemma_mul_inequality(0, y, layout.height_stride as int);
}

/// The position of a sample is not negative.
pub(crate) proof fn lemma_offset_nonnegative(layout: SampleLayout, c: int, x: int, y: int)
    requires
        0 <= c,
        0 <= x,
        0 <= y,
    ensures
        0 <= layout.offset(c, x, y),
{
    lemma_offset_monotonic(layout, c, x, y, c, x, y);
}

/// The length of an image is not negative.
proof fn lemma_span_nonnegative(layout: SampleLayout)
    ensures
        layout.span() >= 0,
{
    if !layout.is_empty() {
        lemma_offset_nonnegative(
            layout,
            layout.channels - 1,
            layout.width - 1,
            layout.height - 1,
        );
    }
}

/// A buffer is as long as `min_length`, or longer, exactly if every in-bounds sample has a valid
/// index into it.
pub proof fn law_min_length_is_least(layout: SampleLayout, len: nat)
    ensures
        layout.span() <= len <==> (forall|c: int, x: int, y: int|
            layout.contains(c, x, y) ==> #[trigger] layout.offset(c, x, y) < len),
{
    let (mc, mx, my) = (layout.channels - 1, layout.width - 1, layout.height - 1);
    if layout.span() <= len {
        assert forall|c: int, x: int, y: int| layout.contains(c, x, y) implies #[trigger] layout.offset(
            c,
            x,
            y,
        ) < len by {
            lemma_offset_monotonic(layout, c, x, y, mc, mx, my);
        }
    } else {
        assert(layout.contains(mc, mx, my));
        assert(layout.offset(mc, mx, my) >= len);
    }
}

/// The multiples of a stride that stay inside a dimension leave room for one more.
proof fn lemma_last_step(stride: int, extent: int, i: int)
    requires
        0 <= stride,
        0 <= i < extent,
    ensures
        0 <= i * stride,
        i * stride + stride <= stride * extent,
        stride == 0 || i == 0 ==> i * stride == 0,
{
    lemma_mul_inequality(0, i, stride);
    lemma_mul_inequality(i + 1, extent, stride);
    lemma_mul_is_distributive_add_other_way(stride, i, 1);
    lemma_mul_is_commutative(stride, extent);
    assert(stride == 0 || i == 0 ==> i * stride == 0) by (nonlinear_arith);
}

/// Three dimensions in increasing order, of which each walks over all of the one before it.
spec fn dims_nested(a: (int, int), b: (int, int), c: (int, int)) -> bool {
    &&& 0 <= a.0 <= b.0 <= c.0
    &&& 0 < a.1 && 0 < b.1 && 0 < c.1
    &&& a.0 * a.1 <= b.0
    &&& b.0 * b.1 <= c.0
    &&& a.0 == 0 ==> a.1 == 1
    &&& b.0 == 0 ==> b.1 == 1
    &&& c.0 == 0 ==> c.1 == 1
}

/// Steps in nested dimensions end before the last step of the largest does.
proof fn lemma_nested_bounded(a: (int, int), b: (int, int), c: (int, int), i: int, j: int, k: int)
    requires
        dims_nested(a, b, c),
        0 <= i < a.1,
        0 <= j < b.1,
        0 <= k < c.1,
    ensures
        i * a.0 + j * b.0 + k * c.0 < c.0 * c.1 || i * a.0 + j * b.0 + k * c.0 == 0,
        i * a.0 + j * b.0 < c.0 || (i * a.0 + j * b.0 == 0 && c.0 == 0),
        i * a.0 < b.0 || (i * a.0 == 0 && b.0 == 0),
{
    lemma_last_step(a.0, a.1, i);
    lemma_last_step(b.0, b.1, j);
    lemma_last_step(c.0, c.1, k);
}

/// In nested dimensions the number of steps in each is determined by where they lead.
proof fn lemma_nested_injective(
    a: (int, int),
    b: (int, int),
    c: (int, int),
    i: int,
    j: int,
    k: int,
    i2: int,
    j2: int,
    k2: int,
)
    requires
        dims_nested(a, b, c),
        0 <= i < a.1,
        0 <= j < b.1,
        0 <= k < c.1,
        0 <= i2 < a.1,
        0 <= j2 < b.1,
        0 <= k2 < c.1,
        i * a.0 + j * b.0 + k * c.0 == i2 * a.0 + j2 * b.0 + k2 * c.0,
    ensures
        i == i2,
        j == j2,
        k == k2,
{
    lemma_nested_bounded(a, b, c, i, j, k);
    lemma_nested_bounded(a, b, c, i2, j2, k2);
    lemma_last_step(a.0, a.1, i);
    lemma_last_step(a.0, a.1, i2);
    lemma_last_step(b.0, b.1, j);
    lemma_last_step(b.0, b.1, j2);
    lemma_step_difference(c.0, k, k2);
    lemma_step_difference(b.0, j, j2);
    lemma_step_difference(a.0, i, i2);
}

/// Different numbers of steps of a positive stride are at least one stride apart.
proof fn lemma_step_difference(stride: int, i: int, j: int)
    requires
        0 <= stride,
    ensures
        i < j ==> i * stride + stride <= j * stride,
        j < i ==> j * stride + stride <= i * stride,
{
    if i < j {
        lemma_mul_inequality(i + 1, j, stride);
        lemma_mul_is_distributive_add_other_way(stride, i, 1);
    }
    if j < i {
        lemma_mul_inequality(j + 1, i, stride);
        lemma_mul_is_distributive_add_other_way(stride, j, 1);
    }
}

/// How many pairs of three dimensions are not in increasing order.
spec fn inversions(a: (int, int), b: (int, int), c: (int, int)) -> nat {
    (if dim_le(a, b) { 0nat } else { 1 }) + (if dim_le(a, c) { 0nat } else { 1 }) + (if dim_le(
        b,
        c,
    ) { 0nat } else { 1 })
}

/// Where one of each two dimensions walks over the other, whatever their order, two pairs of steps
/// lead to places below the largest length, and to different places if they differ.
proof fn lemma_walking_over(
    a: (int, int),
    b: (int, int),
    c: (int, int),
    i: (int, int),
    j: (int, int),
    k: (int, int),
)
    requires
        0 <= a.0 && 0 <= b.0 && 0 <= c.0,
        0 <= i.0 < a.1 && 0 <= i.1 < a.1,
        0 <= j.0 < b.1 && 0 <= j.1 < b.1,
        0 <= k.0 < c.1 && 0 <= k.1 < c.1,
        a.0 == 0 ==> a.1 == 1,
        b.0 == 0 ==> b.1 == 1,
        c.0 == 0 ==> c.1 == 1,
        a.0 * a.1 <= usize::MAX,
        b.0 * b.1 <= usize::MAX,
        c.0 * c.1 <= usize::MAX,
        dim_walks_over(a, b),
        dim_walks_over(a, c),
        dim_walks_over(b, c),
    ensures
        i.0 * a.0 + j.0 * b.0 + k.0 * c.0 < usize::MAX,
        i.0 * a.0 + j.0 * b.0 + k.0 * c.0 == i.1 * a.0 + j.1 * b.0 + k.1 * c.0 ==> i.0 == i.1 && j.0
            == j.1 && k.0 == k.1,
    decreases inversions(a, b, c),
{
    if !dim_le(a, b) {
        lemma_walking_over(b, a, c, j, i, k);
    } else if !dim_le(b, c) {
        lemma_walking_over(a, c, b, i, k, j);
    } else {
        lemma_nested_bounded(a, b, c, i.0, j.0, k.0);
        if i.0 * a.0 + j.0 * b.0 + k.0 * c.0 == i.1 * a.0 + j.1 * b.0 + k.1 * c.0 {
            lemma_nested_injective(a, b, c, i.0, j.0, k.0, i.1, j.1, k.1);
        }
    }
}

/// A layout in which each dimension walks over all of those with smaller strides has no aliased
/// samples, if the dimensions can be represented.
pub proof fn law_nested_is_unaliased(layout: SampleLayout)
    requires
        layout.channel_stride * layout.channels <= usize::MAX,
        layout.width_stride * layout.width <= usize::MAX,
        layout.height_stride * layout.height <= usize::MAX,
        layout.nested(),
    ensures
        layout.unaliased(),
{
    let (a, b, d) = (layout.channel_dim(), layout.width_dim(), layout.height_dim());
    if !layout.is_empty() {
        let (c, x, y) = (layout.channels - 1, layout.width - 1, layout.height - 1);
        lemma_walking_over(a, b, d, (c, c), (x, x), (y, y));
    }
    assert forall|c: int, x: int, y: int, c2: int, x2: int, y2: int|
        {
            &&& layout.contains(c, x, y)
            &&& layout.contains(c2, x2, y2)
            &&& #[trigger] layout.offset(c, x, y) == #[trigger] layout.offset(c2, x2, y2)
        } implies c == c2 && x == x2 && y == y2 by {
        lemma_walking_over(a, b, d, (c, c2), (x, x2), (y, y2));
    }
}

/// Two samples at one position are apart by some number of channels that steps in the other
/// dimensions make up for.
proof fn lemma_collision_by_channels(
    layout: SampleLayout,
    c: int,
    x: int,
    y: int,
    c2: int,
    x2: int,
    y2: int,
)
    requires
        layout.contains(c, x, y),
        layout.contains(c2, x2, y2),
        layout.offset(c, x, y) == layout.offset(c2, x2, y2),
        (c, x, y) != (c2, x2, y2),
        c >= c2,
    ensures
        layout.collides_at(c - c2),
{
    let (w, h) = (layout.width_stride as int, layout.height_stride as int);
    lemma_mul_is_distributive_sub_other_way(layout.channel_stride as int, c, c2);
    lemma_mul_is_distributive_sub_other_way(w, x2, x);
    lemma_mul_is_distributive_sub_other_way(h, y2, y);
    assert(steps(w, h, x2 - x, y2 - y) == (c - c2) * layout.channel_stride);
    assert(c == c2 ==> (c - c2) * layout.channel_stride == 0);
}

/// The samples are at different positions exactly if no number of channels brings two of them to
/// one position.
pub(crate) proof fn lemma_distinct_by_channels(layout: SampleLayout)
    requires
        !layout.is_empty(),
    ensures
        layout.samples_distinct() <==> forall|p: int|
            0 <= p < layout.channels ==> !#[trigger] layout.collides_at(p),
{
    let (w, h) = (layout.width_dim(), layout.height_dim());
    if layout.samples_distinct() {
        assert forall|p: int| 0 <= p < layout.channels implies !#[trigger] layout.collides_at(
            p,
        ) by {
            if layout.collides_at(p) {
                let (q, r) = choose|q: int, r: int|
                    {
                        &&& -w.1 < q < w.1
                        &&& -h.1 < r < h.1
                        &&& (p != 0 || q != 0 || r != 0)
                        &&& #[trigger] steps(w.0, h.0, q, r) == p * layout.channel_stride
                    };
                // Steps forwards end at one sample, steps backwards start from the other.
                let (x, x2) = if q < 0 { (-q, 0) } else { (0, q) };
                let (y, y2) = if r < 0 { (-r, 0) } else { (0, r) };
                lemma_mul_is_distributive_sub_other_way(w.0, x2, x);
                lemma_mul_is_distributive_sub_other_way(h.0, y2, y);
                assert(layout.contains(p, x, y) && layout.contains(0, x2, y2));
                assert(layout.offset(p, x, y) == layout.offset(0, x2, y2));
            }
        }
    }
    if forall|p: int| 0 <= p < layout.channels ==> !#[trigger] layout.collides_at(p) {
        assert forall|c: int, x: int, y: int, c2: int, x2: int, y2: int|
            {
                &&& layout.contains(c, x, y)
                &&& layout.contains(c2, x2, y2)
                &&& #[trigger] layout.offset(c, x, y) == #[trigger] layout.offset(c2, x2, y2)
            } implies c == c2 && x == x2 && y == y2 by {
            if (c, x, y) != (c2, x2, y2) {
                if c >= c2 {
                    lemma_collision_by_channels(layout, c, x, y, c2, x2, y2);
                } else {
                    lemma_collision_by_channels(layout, c2, x2, y2, c, x, y);
                }
            }
        }
    }
}

/// In a layout without aliased samples, different samples have different positions.
pub proof fn law_unaliased_samples_are_distinct(
    layout: SampleLayout,
    c: int,
    x: int,
    y: int,
    c2: int,
    x2: int,
    y2: int,
)
    requires
        layout.unaliased(),
        layout.contains(c, x, y),
        layout.contains(c2, x2, y2),
        layout.offset(c, x, y) == layout.offset(c2, x2, y2),
    ensures
        c == c2,
        x == x2,
        y == y2,
{
}

/// Where nothing overflows, `has_aliased_samples` is true only if two samples are at one position.
pub proof fn law_aliasing_is_exact(layout: SampleLayout)
    requires
        layout.channel_stride * layout.channels <= usize::MAX,
        layout.width_stride * layout.width <= usize::MAX,
        layout.height_stride * layout.height <= usize::MAX,
        layout.span() <= usize::MAX,
        !layout.unaliased(),
    ensures
        exists|c: int, x: int, y: int, c2: int, x2: int, y2: int|
            {
                &&& layout.contains(c, x, y)
                &&& layout.contains(c2, x2, y2)
                &&& (c, x, y) != (c2, x2, y2)
                &&& #[trigger] layout.offset(c, x, y) == #[trigger] layout.offset(c2, x2, y2)
            },
{
}

/// An image without samples has no aliased ones, unless a dimension overflows.
pub proof fn law_empty_image_has_no_aliasing(layout: SampleLayout)
    requires
        layout.is_empty(),
        layout.channel_stride * layout.channels <= usize::MAX,
        layout.width_stride * layout.width <= usize::MAX,
        layout.height_stride * layout.height <= usize::MAX,
    ensures
        layout.unaliased(),
{
}

/// In a layout without aliased samples, no index calculation inside the bounds overflows: each
/// position fits into a `usize`, and so does `min_length`.
pub proof fn law_unaliased_does_not_overflow(layout: SampleLayout)
    requires
        layout.unaliased(),
    ensures
        layout.span() <= usize::MAX,
        forall|c: int, x: int, y: int|
            layout.contains(c, x, y) ==> 0 <= #[trigger] layout.offset(c, x, y) <= usize::MAX,
{
    law_min_length_is_least(layout, usize::MAX as nat);
    assert forall|c: int, x: int, y: int| layout.contains(c, x, y) implies 0
        <= #[trigger] layout.offset(c, x, y) by {
        lemma_offset_nonnegative(layout, c, x, y);
    }
}

/// Where a stride of zero repeats samples, there are two samples at one position, and
/// `has_aliased_samples` says so.
pub proof fn law_repeated_samples_are_aliased(layout: SampleLayout)
    requires
        layout.repeats_samples(),
    ensures
        !layout.samples_distinct(),
        !layout.unaliased(),
{
    assert(layout.contains(0, 0, 0));
    if layout.channel_stride == 0 && layout.channels > 1 {
        assert(layout.contains(1, 0, 0));
        assert(layout.offset(1, 0, 0) == layout.offset(0, 0, 0));
    } else if layout.width_stride == 0 && layout.width > 1 {
        assert(layout.contains(0, 1, 0));
        assert(layout.offset(0, 1, 0) == layout.offset(0, 0, 0));
    } else {
        assert(layout.contains(0, 0, 1));
        assert(layout.offset(0, 0, 1) == layout.offset(0, 0, 0));
    }
}

/// All samples of an image without strides, which has only one color, are at one position: a
/// buffer of one sample is enough for it.
pub proof fn law_monochrome_image_needs_one_sample(layout: SampleLayout, c: int, x: int, y: int)
    requires
        layout.channel_stride == 0,
        layout.width_stride == 0,
        layout.height_stride == 0,
        layout.contains(c, x, y),
    ensures
        layout.span() == 1,
        layout.offset(c, x, y) == 0,
{
}

/// The samples of a packed image that is not empty fill the product of its extents, and the
/// sample at a position below that can be told.
proof fn lemma_packed_layout(layout: SampleLayout, i: int) -> (sample: (int, int, int))
    requires
        layout.image_packed(),
        !layout.is_empty(),
    ensures
        layout.span() == layout.width * layout.height * layout.channels,
        0 <= i < layout.span() ==> {
            &&& layout.contains(sample.0, sample.1, sample.2)
            &&& layout.offset(sample.0, sample.1, sample.2) == i
        },
{
    let (c, w, h) = (layout.channel_dim(), layout.width_dim(), layout.height_dim());
    let (nc, nw, nh) = (c.1, w.1, h.1);
    assert(nw * nh * nc == nc * nw * nh && nw * nh * nc == nc * nh * nw && nw * nh * nc == nw * nc
        * nh && nw * nh * nc == nh * nc * nw && nw * nh * nc == nh * nw * nc) by (nonlinear_arith);
    if dims_packed(c, w, h) {
        let s = lemma_packed_dims(c, w, h, i);
        (s.0, s.1, s.2)
    } else if dims_packed(c, h, w) {
        let s = lemma_packed_dims(c, h, w, i);
        (s.0, s.2, s.1)
    } else if dims_packed(w, c, h) {
        let s = lemma_packed_dims(w, c, h, i);
        (s.1, s.0, s.2)
    } else if dims_packed(w, h, c) {
        let s = lemma_packed_dims(w, h, c, i);
        (s.2, s.0, s.1)
    } else if dims_packed(h, c, w) {
        let s = lemma_packed_dims(h, c, w, i);
        (s.1, s.2, s.0)
    } else {
        let s = lemma_packed_dims(h, w, c, i);
        (s.2, s.1, s.0)
    }
}

/// Packed dimensions fill the product of their extents, and some number of steps in each reaches
/// a position below that.
proof fn lemma_packed_dims(a: (int, int), b: (int, int), c: (int, int), i: int) -> (steps: (
    int,
    int,
    int,
))
    requires
        dims_packed(a, b, c),
        0 < a.1,
        0 < b.1,
        0 < c.1,
    ensures
        (a.1 - 1) * a.0 + (b.1 - 1) * b.0 + (c.1 - 1) * c.0 + 1 == a.1 * b.1 * c.1,
        0 <= i < a.1 * b.1 * c.1 ==> {
            &&& 0 <= steps.0 < a.1
            &&& 0 <= steps.1 < b.1
            &&& 0 <= steps.2 < c.1
            &&& steps.0 * a.0 + steps.1 * b.0 + steps.2 * c.0 == i
        },
{
    lemma_packed_length(a, b, c);
    if 0 <= i < a.1 * b.1 * c.1 {
        lemma_packed_reaches(a, b, c, i)
    } else {
        (0, 0, 0)
    }
}

/// The samples of packed dimensions fill the product of the extents.
proof fn lemma_packed_length(a: (int, int), b: (int, int), c: (int, int))
    requires
        dims_packed(a, b, c),
    ensures
        (a.1 - 1) * a.0 + (b.1 - 1) * b.0 + (c.1 - 1) * c.0 + 1 == a.1 * b.1 * c.1,
{
    assert((a.1 - 1) * 1 + (b.1 - 1) * a.1 + (c.1 - 1) * (a.1 * b.1) + 1 == a.1 * b.1 * c.1)
        by (nonlinear_arith);
    assert(a.0 * a.1 == a.1);
}

/// Every position inside packed dimensions is reached by some number of steps in each.
proof fn lemma_packed_reaches(a: (int, int), b: (int, int), c: (int, int), i: int) -> (steps: (
    int,
    int,
    int,
))
    requires
        dims_packed(a, b, c),
        0 < a.1,
        0 < b.1,
        0 < c.1,
        0 <= i < a.1 * b.1 * c.1,
    ensures
        0 <= steps.0 < a.1,
        0 <= steps.1 < b.1,
        0 <= steps.2 < c.1,
        steps.0 * a.0 + steps.1 * b.0 + steps.2 * c.0 == i,
{
    let plane = a.1 * b.1;
    assert(plane > 0) by (nonlinear_arith)
        requires
            plane == a.1 * b.1,
            0 < a.1,
            0 < b.1,
    ;
    assert(b.0 == a.1 && c.0 == plane);
    let k = i / plane;
    let rest = i % plane;
    let j = rest / a.1;
    let m = rest % a.1;
    lemma_fundamental_div_mod(i, plane);
    lemma_mod_bound(i, plane);
    lemma_fundamental_div_mod(rest, a.1);
    lemma_mod_bound(rest, a.1);
    lemma_div_pos_is_pos(i, plane);
    lemma_div_pos_is_pos(rest, a.1);
    assert(k < c.1) by (nonlinear_arith)
        requires
            plane > 0,
            i == plane * k + rest,
            0 <= rest,
            i < plane * c.1,
    ;
    assert(j < b.1) by (nonlinear_arith)
        requires
            a.1 > 0,
            rest == a.1 * j + m,
            0 <= m,
            rest < a.1 * b.1,
    ;
    lemma_mul_is_commutative(plane, k);
    lemma_mul_is_commutative(a.1, j);
    (m, j, k)
}

/// A compact image, without aliasing and without unindexed samples, has a `min_length` of
/// `width*height*channels`.
pub proof fn law_packed_min_length(layout: SampleLayout)
    requires
        layout.normal(NormalForm::ImagePacked),
    ensures
        layout.span() == layout.width * layout.height * layout.channels,
{
    if layout.is_empty() {
        let (nc, nw, nh) = (layout.channels as int, layout.width as int, layout.height as int);
        assert(nw * nh * nc == 0) by (nonlinear_arith)
            requires
                nc == 0 || nw == 0 || nh == 0,
        ;
    } else {
        let _ = lemma_packed_layout(layout, 0);
    }
}

/// An image in which all samples are packed has no holes: every position below `min_length`
/// belongs to a sample.
pub proof fn law_packed_has_no_holes(layout: SampleLayout, i: int)
    requires
        layout.normal(NormalForm::ImagePacked),
        0 <= i < layout.span(),
    ensures
        layout.has_sample_at(i),
{
    let (c, x, y) = lemma_packed_layout(layout, i);
    assert(layout.contains(c, x, y) && layout.offset(c, x, y) == i);
}

/// Where a number of steps in each of three dimensions leads.
spec fn place(a: (int, int), b: (int, int), c: (int, int), i: int, j: int, k: int) -> int {
    i * a.0 + j * b.0 + k * c.0
}

/// Whether the steps stay inside the three dimensions.
spec fn inside(a: (int, int), b: (int, int), c: (int, int), i: int, j: int, k: int) -> bool {
    0 <= i < a.1 && 0 <= j < b.1 && 0 <= k < c.1
}

/// Whether some steps inside three dimensions lead to `t`.
spec fn place_reached(a: (int, int), b: (int, int), c: (int, int), t: int) -> bool {
    exists|i: int, j: int, k: int|
        inside(a, b, c, i, j, k) && #[trigger] place(a, b, c, i, j, k) == t
}

/// Whether different steps inside three dimensions lead to different places.
spec fn places_distinct(a: (int, int), b: (int, int), c: (int, int)) -> bool {
    forall|i: int, j: int, k: int, i2: int, j2: int, k2: int|
        {
            &&& inside(a, b, c, i, j, k)
            &&& inside(a, b, c, i2, j2, k2)
            &&& #[trigger] place(a, b, c, i, j, k) == #[trigger] place(a, b, c, i2, j2, k2)
        } ==> i == i2 && j == j2 && k == k2
}

/// Whether steps inside three dimensions lead to every place up to the last one.
spec fn places_filled(a: (int, int), b: (int, int), c: (int, int)) -> bool {
    forall|t: int|
        0 <= t <= place(a, b, c, a.1 - 1, b.1 - 1, c.1 - 1) ==> #[trigger] place_reached(a, b, c, t)
}

/// Whether three dimensions are packed in some order.
spec fn packed_in_some_order(a: (int, int), b: (int, int), c: (int, int)) -> bool {
    ||| dims_packed(a, b, c)
    ||| dims_packed(a, c, b)
    ||| dims_packed(b, a, c)
    ||| dims_packed(b, c, a)
    ||| dims_packed(c, a, b)
    ||| dims_packed(c, b, a)
}

/// The order of the first two dimensions does not matter to the places.
proof fn lemma_places_swap_first(a: (int, int), b: (int, int), c: (int, int))
    requires
        places_distinct(a, b, c),
        places_filled(a, b, c),
    ensures
        places_distinct(b, a, c),
        places_filled(b, a, c),
{
    assert forall|j: int, i: int, k: int, j2: int, i2: int, k2: int|
        {
            &&& inside(b, a, c, j, i, k)
            &&& inside(b, a, c, j2, i2, k2)
            &&& #[trigger] place(b, a, c, j, i, k) == #[trigger] place(b, a, c, j2, i2, k2)
        } implies j == j2 && i == i2 && k == k2 by {
        assert(place(a, b, c, i, j, k) == place(a, b, c, i2, j2, k2));
    }
    assert forall|t: int|
        0 <= t <= place(b, a, c, b.1 - 1, a.1 - 1, c.1 - 1) implies #[trigger] place_reached(
        b,
        a,
        c,
        t,
    ) by {
        assert(place_reached(a, b, c, t));
        let (i, j, k) = choose|i: int, j: int, k: int|
            inside(a, b, c, i, j, k) && #[trigger] place(a, b, c, i, j, k) == t;
        assert(inside(b, a, c, j, i, k) && place(b, a, c, j, i, k) == t);
    }
}

/// The order of the last two dimensions does not matter to the places.
proof fn lemma_places_swap_last(a: (int, int), b: (int, int), c: (int, int))
    requires
        places_distinct(a, b, c),
        places_filled(a, b, c),
    ensures
        places_distinct(a, c, b),
        places_filled(a, c, b),
{
    assert forall|i: int, k: int, j: int, i2: int, k2: int, j2: int|
        {
            &&& inside(a, c, b, i, k, j)
            &&& inside(a, c, b, i2, k2, j2)
            &&& #[trigger] place(a, c, b, i, k, j) == #[trigger] place(a, c, b, i2, k2, j2)
        } implies i == i2 && k == k2 && j == j2 by {
        assert(place(a, b, c, i, j, k) == place(a, b, c, i2, j2, k2));
    }
    assert forall|t: int|
        0 <= t <= place(a, c, b, a.1 - 1, c.1 - 1, b.1 - 1) implies #[trigger] place_reached(
        a,
        c,
        b,
        t,
    ) by {
        assert(place_reached(a, b, c, t));
        let (i, j, k) = choose|i: int, j: int, k: int|
            inside(a, b, c, i, j, k) && #[trigger] place(a, b, c, i, j, k) == t;
        assert(inside(a, c, b, i, k, j) && place(a, c, b, i, k, j) == t);
    }
}

/// Steps in dimensions of increasing strides lead at least as far as the stride of any dimension
/// that they are in.
proof fn lemma_some_step(a: (int, int), b: (int, int), c: (int, int), i: int, j: int, k: int)
    requires
        0 <= a.0 <= b.0 <= c.0,
        0 <= i && 0 <= j && 0 <= k,
    ensures
        i > 0 ==> place(a, b, c, i, j, k) >= a.0,
        j > 0 || k > 0 ==> place(a, b, c, i, j, k) >= b.0,
        k > 0 ==> place(a, b, c, i, j, k) >= c.0,
{
    lemma_mul_inequality(0, i, a.0);
    lemma_mul_inequality(0, j, b.0);
    lemma_mul_inequality(0, k, c.0);
    if i > 0 {
        lemma_mul_inequality(1, i, a.0);
    }
    if j > 0 {
        lemma_mul_inequality(1, j, b.0);
    }
    if k > 0 {
        lemma_mul_inequality(1, k, c.0);
    }
}

/// If place 1 is reached, it is by a step of the smallest stride.
proof fn lemma_first_stride(a: (int, int), b: (int, int), c: (int, int))
    requires
        0 < a.0 <= b.0 <= c.0,
        place_reached(a, b, c, 1),
    ensures
        a.0 == 1,
{
    let (i, j, k) = choose|i: int, j: int, k: int|
        inside(a, b, c, i, j, k) && #[trigger] place(a, b, c, i, j, k) == 1;
    lemma_some_step(a, b, c, i, j, k);
    if i == 0 && j == 0 && k == 0 {
        assert(place(a, b, c, 0, 0, 0) == 0);
    }
}

/// If the next place after the first dimension is reached, it is by a step in another one.
proof fn lemma_second_stride(a: (int, int), b: (int, int), c: (int, int))
    requires
        a.0 == 1,
        1 <= b.0 <= c.0,
        place_reached(a, b, c, a.1),
    ensures
        b.0 <= a.1,
{
    let (i, j, k) = choose|i: int, j: int, k: int|
        inside(a, b, c, i, j, k) && #[trigger] place(a, b, c, i, j, k) == a.1;
    lemma_some_step(a, b, c, i, j, k);
    if j == 0 && k == 0 {
        assert(place(a, b, c, i, 0, 0) == i);
    }
}

/// If the next place after the first two dimensions is reached, it is by a step in the third.
proof fn lemma_third_stride(a: (int, int), b: (int, int), c: (int, int))
    requires
        0 < a.1,
        a.0 == 1,
        b.0 == a.1,
        0 <= c.0,
        place_reached(a, b, c, a.1 * b.1),
    ensures
        c.0 <= a.1 * b.1,
{
    let (i, j, k) = choose|i: int, j: int, k: int|
        inside(a, b, c, i, j, k) && #[trigger] place(a, b, c, i, j, k) == a.1 * b.1;
    assert(0 <= j * a.1 && j * a.1 + a.1 <= a.1 * b.1) by (nonlinear_arith)
        requires
            0 <= j < b.1,
            0 < a.1,
    ;
    assert(k > 0 ==> k * c.0 >= c.0) by (nonlinear_arith)
        requires
            0 <= c.0,
    ;
    assert(k == 0 ==> k * c.0 == 0) by (nonlinear_arith);
    assert(i * a.0 == i) by (nonlinear_arith)
        requires
            a.0 == 1,
    ;
    assert(i + j * a.1 + k * c.0 == a.1 * b.1);
}

/// A third stride below the next place after the first two dimensions leads to a place inside
/// these.
proof fn lemma_third_stride_apart(a: (int, int), b: (int, int), c: (int, int))
    requires
        0 < a.1 && 0 < b.1 && 1 < c.1,
        a.0 == 1,
        b.0 == a.1,
        0 <= c.0,
        places_distinct(a, b, c),
    ensures
        a.1 * b.1 <= c.0,
{
    if c.0 < a.1 * b.1 {
        let (i, j) = (c.0 % a.1, c.0 / a.1);
        lemma_fundamental_div_mod(c.0, a.1);
        lemma_mod_bound(c.0, a.1);
        lemma_div_pos_is_pos(c.0, a.1);
        lemma_mul_is_commutative(a.1, j);
        assert(j < b.1) by (nonlinear_arith)
            requires
                a.1 > 0,
                c.0 == a.1 * j + i,
                0 <= i,
                c.0 < a.1 * b.1,
        ;
        assert(i * a.0 == i) by (nonlinear_arith)
            requires
                a.0 == 1,
        ;
        assert(place(a, b, c, i, j, 0) == c.0);
        assert(place(a, b, c, 0, 0, 1) == c.0);
        assert(inside(a, b, c, i, j, 0) && inside(a, b, c, 0, 0, 1));
    }
}

/// Dimensions in increasing order that fill all places without reaching one twice are packed.
proof fn lemma_filled_in_order(a: (int, int), b: (int, int), c: (int, int))
    requires
        0 <= a.0,
        dim_le(a, b),
        dim_le(b, c),
        1 < a.1 && 1 < b.1 && 1 < c.1,
        places_distinct(a, b, c),
        places_filled(a, b, c),
    ensures
        dims_packed(a, b, c),
{
    let last = place(a, b, c, a.1 - 1, b.1 - 1, c.1 - 1);
    assert(a.0 > 0) by {
        if a.0 == 0 {
            assert(inside(a, b, c, 1, 0, 0) && inside(a, b, c, 0, 0, 0));
            assert(place(a, b, c, 1, 0, 0) == place(a, b, c, 0, 0, 0));
        }
    }
    lemma_mul_inequality(1, a.1 - 1, a.0);
    lemma_mul_inequality(1, b.1 - 1, b.0);
    lemma_mul_inequality(1, c.1 - 1, c.0);
    assert(last >= a.0 + b.0 + c.0);
    assert(place_reached(a, b, c, 1));
    lemma_first_stride(a, b, c);
    assert((a.1 - 1) * a.0 == a.1 - 1) by (nonlinear_arith)
        requires
            a.0 == 1,
    ;
    assert(b.0 >= a.1) by {
        if b.0 < a.1 {
            assert(inside(a, b, c, b.0, 0, 0) && inside(a, b, c, 0, 1, 0));
            assert(place(a, b, c, b.0, 0, 0) == place(a, b, c, 0, 1, 0));
        }
    }
    assert(last >= a.1);
    assert(place_reached(a, b, c, a.1));
    lemma_second_stride(a, b, c);
    lemma_third_stride_apart(a, b, c);
    lemma_mul_is_distributive_sub_other_way(a.1, b.1, 1);
    lemma_mul_is_commutative(a.1, b.1);
    assert((b.1 - 1) * a.1 == a.1 * b.1 - a.1);
    assert(last >= a.1 * b.1);
    assert(place_reached(a, b, c, a.1 * b.1));
    lemma_third_stride(a, b, c);
}

/// Dimensions that fill all places without reaching one twice are packed in some order.
proof fn lemma_filled(a: (int, int), b: (int, int), c: (int, int))
    requires
        0 <= a.0 && 0 <= b.0 && 0 <= c.0,
        1 < a.1 && 1 < b.1 && 1 < c.1,
        places_distinct(a, b, c),
        places_filled(a, b, c),
    ensures
        packed_in_some_order(a, b, c),
    decreases inversions(a, b, c),
{
    if !dim_le(a, b) {
        lemma_places_swap_first(a, b, c);
        lemma_filled(b, a, c);
    } else if !dim_le(b, c) {
        lemma_places_swap_last(a, b, c);
        lemma_filled(a, c, b);
    } else {
        lemma_filled_in_order(a, b, c);
    }
}

/// An image without holes, in which every position below `min_length` belongs to one sample, is
/// packed, if there are several samples in each dimension.
pub proof fn law_filled_positions_are_packed(layout: SampleLayout)
    requires
        layout.unaliased(),
        layout.channels > 1,
        layout.width > 1,
        layout.height > 1,
        forall|i: int| 0 <= i < layout.span() ==> #[trigger] layout.has_sample_at(i),
    ensures
        layout.image_packed(),
{
    let (a, b, d) = (layout.channel_dim(), layout.width_dim(), layout.height_dim());
    assert forall|i: int, j: int, k: int, i2: int, j2: int, k2: int|
        {
            &&& inside(a, b, d, i, j, k)
            &&& inside(a, b, d, i2, j2, k2)
            &&& #[trigger] place(a, b, d, i, j, k) == #[trigger] place(a, b, d, i2, j2, k2)
        } implies i == i2 && j == j2 && k == k2 by {
        law_unaliased_samples_are_distinct(layout, i, j, k, i2, j2, k2);
    }
    assert forall|t: int|
        0 <= t <= place(a, b, d, a.1 - 1, b.1 - 1, d.1 - 1) implies #[trigger] place_reached(
        a,
        b,
        d,
        t,
    ) by {
        assert(layout.has_sample_at(t));
        let (c, x, y) = choose|c: int, x: int, y: int|
            layout.contains(c, x, y) && #[trigger] layout.offset(c, x, y) == t;
        assert(inside(a, b, d, c, x, y) && place(a, b, d, c, x, y) == t);
    }
    lemma_filled(a, b, d);
}

/// The coordinates of a sample from its number, counted by channel, then by column, then by row.
spec fn numbered_sample(layout: SampleLayout, number: int) -> (int, int, int) {
    let pixel = number / (layout.channels as int);
    (
        number % (layout.channels as int),
        pixel % (layout.width as int),
        pixel / (layout.width as int),
    )
}

/// There are as many samples as the product of the extents, and a sample has one number.
proof fn lemma_numbered_sample(layout: SampleLayout, number: int)
    requires
        !layout.is_empty(),
        0 <= number < layout.width * layout.height * layout.channels,
    ensures
        ({
            let (c, x, y) = numbered_sample(layout, number);
            &&& layout.contains(c, x, y)
            &&& number == (y * layout.width + x) * layout.channels + c
        }),
{
    let (nc, nw, nh) = (layout.channels as int, layout.width as int, layout.height as int);
    let pixel = number / nc;
    let (c, x, y) = numbered_sample(layout, number);
    lemma_fundamental_div_mod(number, nc);
    lemma_mod_bound(number, nc);
    lemma_div_pos_is_pos(number, nc);
    lemma_fundamental_div_mod(pixel, nw);
    lemma_mod_bound(pixel, nw);
    lemma_div_pos_is_pos(pixel, nw);
    lemma_mul_is_commutative(nc, pixel);
    lemma_mul_is_commutative(nw, y);
    assert(pixel < nw * nh) by (nonlinear_arith)
        requires
            number == pixel * nc + c,
            0 <= c,
            0 < nc,
            number < nw * nh * nc,
    ;
    assert(y < nh) by (nonlinear_arith)
        requires
            pixel == y * nw + x,
            0 <= x,
            0 < nw,
            pixel < nw * nh,
    ;
}

/// An image without aliasing whose `min_length` is `width*height*channels` has no holes: every
/// position below that belongs to a sample.
pub proof fn law_compact_image_has_no_holes(layout: SampleLayout, i: int)
    requires
        layout.unaliased(),
        layout.span() == layout.width * layout.height * layout.channels,
        0 <= i < layout.span(),
    ensures
        layout.has_sample_at(i),
{
    let n = layout.span();
    let position = |number: int|
        {
            let (c, x, y) = numbered_sample(layout, number);
            layout.offset(c, x, y)
        };
    // As many different positions as there are below `n` are all of those.
    let positions = Seq::new(n as nat, position);
    assert forall|k: int, l: int| 0 <= k < n && 0 <= l < n && k != l implies positions[k]
        != positions[l] by {
        lemma_numbered_sample(layout, k);
        lemma_numbered_sample(layout, l);
        let (c, x, y) = numbered_sample(layout, k);
        let (c2, x2, y2) = numbered_sample(layout, l);
        if layout.offset(c, x, y) == layout.offset(c2, x2, y2) {
            law_unaliased_samples_are_distinct(layout, c, x, y, c2, x2, y2);
        }
    }
    positions.unique_seq_to_set();
    vstd::seq_lib::seq_to_set_is_finite(positions);
    let all = vstd::set_lib::set_int_range(0, n);
    vstd::set_lib::lemma_int_range(0, n);
    law_min_length_is_least(layout, n as nat);
    assert forall|t: int| positions.to_set().contains(t) implies all.contains(t) by {
        let k = choose|k: int| 0 <= k < n && positions[k] == t;
        lemma_numbered_sample(layout, k);
        let (c, x, y) = numbered_sample(layout, k);
        lemma_offset_nonnegative(layout, c, x, y);
    }
    vstd::set_lib::lemma_subset_equality(positions.to_set(), all);
    assert(positions.to_set().contains(i));
    let k = choose|k: int| 0 <= k < n && positions[k] == i;
    lemma_numbered_sample(layout, k);
    let (c, x, y) = numbered_sample(layout, k);
    assert(layout.contains(c, x, y) && layout.offset(c, x, y) == i);
}

/// An image without aliasing and without holes is packed, if there are several samples in each
/// dimension. The image has no holes where `min_length` is `width*height*channels`.
pub proof fn law_no_holes_is_packed(layout: SampleLayout)
    requires
        layout.unaliased(),
        layout.channels > 1,
        layout.width > 1,
        layout.height > 1,
        layout.span() == layout.width * layout.height * layout.channels,
    ensures
        layout.image_packed(),
{
    assert forall|i: int| 0 <= i < layout.span() implies #[trigger] layout.has_sample_at(i) by {
        law_compact_image_has_no_holes(layout, i);
    }
    law_filled_positions_are_packed(layout);
}

/// In row-major form the samples of a pixel follow each other, the pixels of a row follow each
/// other, and then the rows.
pub proof fn law_row_major_positions(layout: SampleLayout, c: int, x: int, y: int)
    requires
        layout.normal(NormalForm::RowMajorPacked),
    ensures
        layout.offset(c, x, y) == (y * layout.width + x) * layout.channels + c,
{
    let (w, n) = (layout.width as int, layout.channels as int);
    assert((y * w + x) * n + c == c * 1 + x * n + y * (w * n)) by (nonlinear_arith);
}

/// In column-major form the samples of a pixel follow each other, the pixels of a column follow
/// each other, and then the columns.
pub proof fn law_column_major_positions(layout: SampleLayout, c: int, x: int, y: int)
    requires
        layout.normal(NormalForm::ColumnMajorPacked),
    ensures
        layout.offset(c, x, y) == (x * layout.height + y) * layout.channels + c,
{
    let (h, n) = (layout.height as int, layout.channels as int);
    assert((x * h + y) * n + c == c * 1 + y * n + x * (h * n)) by (nonlinear_arith);
}

/// For a row-major layout the strides of channel, width and height are strictly increasing, if
/// there is more than one channel and more than one column.
pub proof fn law_row_major_strides_increase(layout: SampleLayout)
    requires
        layout.normal(NormalForm::RowMajorPacked),
        layout.channels > 1,
        layout.width > 1,
    ensures
        layout.channel_stride < layout.width_stride < layout.height_stride,
{
    lemma_mul_inequality(2, layout.width as int, layout.width_stride as int);
}

/// The samples of a shrunken image are samples of the image, at the same positions, and a buffer
/// that is large enough for the image is large enough for the shrunken one.
pub proof fn law_shrinking_keeps_samples(
    layout: SampleLayout,
    channels: u8,
    width: u32,
    height: u32,
)
    ensures
        ({
            let shrunk = layout.shrunk(channels, width, height);
            &&& forall|c: int, x: int, y: int| #[trigger]
                shrunk.contains(c, x, y) <==> layout.contains(c, x, y) && c < channels && x < width
                    && y < height
            &&& forall|c: int, x: int, y: int| #[trigger]
                shrunk.offset(c, x, y) == layout.offset(c, x, y)
            &&& shrunk.span() <= layout.span()
        }),
{
    let shrunk = layout.shrunk(channels, width, height);
    if !shrunk.is_empty() {
        lemma_offset_monotonic(
            layout,
            shrunk.channels - 1,
            shrunk.width - 1,
            shrunk.height - 1,
            layout.channels - 1,
            layout.width - 1,
            layout.height - 1,
        );
    } else if !layout.is_empty() {
        lemma_offset_monotonic(
            layout,
            0,
            0,
            0,
            layout.channels - 1,
            layout.width - 1,
            layout.height - 1,
        );
    }
}

/// Shrinking an image does not make its samples alias each other, and keeps packed pixels packed.
pub proof fn law_shrinking_keeps_unaliased(
    layout: SampleLayout,
    channels: u8,
    width: u32,
    height: u32,
)
    requires
        layout.unaliased(),
    ensures
        layout.shrunk(channels, width, height).unaliased(),
        layout.normal(NormalForm::PixelPacked) ==> layout.shrunk(channels, width, height).normal(
            NormalForm::PixelPacked,
        ),
{
    let shrunk = layout.shrunk(channels, width, height);
    law_shrinking_keeps_samples(layout, channels, width, height);
    lemma_mul_inequality(
        shrunk.channels as int,
        layout.channels as int,
        layout.channel_stride as int,
    );
    lemma_mul_inequality(shrunk.width as int, layout.width as int, layout.width_stride as int);
    lemma_mul_inequality(shrunk.height as int, layout.height as int, layout.height_stride as int);
    lemma_mul_is_commutative(layout.channel_stride as int, layout.channels as int);
    lemma_mul_is_commutative(layout.channel_stride as int, shrunk.channels as int);
    lemma_mul_is_commutative(layout.width_stride as int, layout.width as int);
    lemma_mul_is_commutative(layout.width_stride as int, shrunk.width as int);
    lemma_mul_is_commutative(layout.height_stride as int, layout.height as int);
    lemma_mul_is_commutative(layout.height_stride as int, shrunk.height as int);
    assert forall|c: int, x: int, y: int, c2: int, x2: int, y2: int|
        {
            &&& shrunk.contains(c, x, y)
            &&& shrunk.contains(c2, x2, y2)
            &&& #[trigger] shrunk.offset(c, x, y) == #[trigger] shrunk.offset(c2, x2, y2)
        } implies c == c2 && x == x2 && y == y2 by {
        law_unaliased_samples_are_distinct(layout, c, x, y, c2, x2, y2);
    }
}

/// A buffer with more channels than a pixel type has can be viewed as an image of such pixels
/// after the number of channels has been lowered to what the pixel type has.
pub proof fn law_lowering_channels_fixes_color(layout: SampleLayout, channels: u8, len: nat)
    requires
        channels <= layout.channels,
        layout.span() <= len,
    ensures
        ({
            let lowered = layout.shrunk(channels, layout.width, layout.height);
            &&& lowered.channels == channels
            &&& lowered.span() <= len
            &&& layout.normal(NormalForm::PixelPacked) ==> lowered.normal(NormalForm::PixelPacked)
        }),
{
    law_shrinking_keeps_samples(layout, channels, layout.width, layout.height);
    if layout.unaliased() {
        law_shrinking_keeps_unaliased(layout, channels, layout.width, layout.height);
    }
}

/// Shrinking twice is shrinking to the smaller extents.
pub proof fn law_shrinking_composes(
    layout: SampleLayout,
    channels: u8,
    width: u32,
    height: u32,
    channels2: u8,
    width2: u32,
    height2: u32,
)
    ensures
        layout.shrunk(channels, width, height).shrunk(channels2, width2, height2) == layout.shrunk(
            if channels < channels2 { channels } else { channels2 },
            if width < width2 { width } else { width2 },
            if height < height2 { height } else { height2 },
        ),
{
}

/// The order of normal forms is a partial order.
pub proof fn law_normal_forms_are_partially_ordered(a: NormalForm, b: NormalForm, c: NormalForm)
    ensures
        a.partial_cmp_spec(&b) == Some(std::cmp::Ordering::Equal) <==> a == b,
        a.partial_cmp_spec(&b) == Some(std::cmp::Ordering::Less) <==> b.partial_cmp_spec(&a)
            == Some(std::cmp::Ordering::Greater),
        a.partial_cmp_spec(&b) == Some(std::cmp::Ordering::Less) && b.partial_cmp_spec(&c) == Some(
            std::cmp::Ordering::Less,
        ) ==> a.partial_cmp_spec(&c) == Some(std::cmp::Ordering::Less),
{
}

/// A layout that none but the given form and those below it describe.
spec fn layout_of_form(form: NormalForm) -> SampleLayout {
    let (cs, ws, hs) = match form {
        NormalForm::Unaliased => (2usize, 4usize, 8usize),
        NormalForm::PixelPacked => (1, 3, 7),
        NormalForm::ImagePacked => (4, 1, 2),
        NormalForm::RowMajorPacked => (1, 2, 4),
        NormalForm::ColumnMajorPacked => (1, 4, 2),
    };
    SampleLayout {
        channels: 2,
        channel_stride: cs,
        width: 2,
        width_stride: ws,
        height: 2,
        height_stride: hs,
    }
}

/// `a <= b` exactly if every layout in normal form `b` is in normal form `a`.
pub proof fn law_order_is_implication(a: NormalForm, b: NormalForm)
    ensures
        (a == b || a.partial_cmp_spec(&b) == Some(std::cmp::Ordering::Less)) <==> (forall|
            layout: SampleLayout,
        | #[trigger]
            layout.normal(b) ==> layout.normal(a)),
{
    if !(a == b || a.partial_cmp_spec(&b) == Some(std::cmp::Ordering::Less)) {
        let layout = layout_of_form(b);
        // The lengths in memory of the dimensions of these layouts.
        assert(1 * 2 == 2 && 2 * 2 == 4 && 3 * 2 == 6 && 4 * 2 == 8 && 7 * 2 == 14 && 8 * 2 == 16);
        law_nested_is_unaliased(layout);
        assert(layout.normal(b) && !layout.normal(a));
    }
}

} // verus!
