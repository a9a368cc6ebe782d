//! Strided layouts of the samples of an image.

use vstd::prelude::*;

use crate::lattice::{comes_back, reaches, Lattice};
use crate::normal_form::NormalForm;

verus! {

/// A description of a sample buffer.
#[derive(Clone, Copy, Debug, PartialEq, Eq, Hash, Structural)]
pub struct SampleLayout {
    /// The number of channels in the color representation of the image.
    pub channels: u8,
    /// Add this to an index to get to the sample in the next channel.
    pub channel_stride: usize,
    /// The width of the represented image.
    pub width: u32,
    /// Add this to an index to get to the next sample in x-direction.
    pub width_stride: usize,
    /// The height of the represented image.
    pub height: u32,
    /// Add this to an index to get to the next sample in y-direction.
    pub height_stride: usize,
}

/// Helper struct for an unnamed (stride, length) pair.
#[derive(Clone, Copy, Debug, PartialEq, Eq)]
struct Dim(usize, usize);

/// Whether dimension `a` is at most `b`, by stride first and by extent for equal strides.
///
/// A dimension is a (stride, extent) pair.
pub open spec fn dim_le(a: (int, int), b: (int, int)) -> bool {
    a.0 < b.0 || (a.0 == b.0 && a.1 <= b.1)
}

/// Whether one stride of the larger of two dimensions walks over all of the smaller one.
pub open spec fn dim_walks_over(a: (int, int), b: (int, int)) -> bool {
    if dim_le(a, b) {
        a.0 * a.1 <= b.0
    } else {
        b.0 * b.1 <= a.0
    }
}

/// Whether the three dimensions, taken in this order, are increasing and leave no gaps.
pub open spec fn dims_packed(a: (int, int), b: (int, int), c: (int, int)) -> bool {
    &&& dim_le(a, b)
    &&& dim_le(b, c)
    &&& a.0 == 1
    &&& b.0 == a.0 * a.1
    &&& c.0 == b.0 * b.1
}

/// Whether `(a, b, c)` are the three dimensions `(x, y, z)` in some order.
spec fn dims_permuted(
    a: (int, int),
    b: (int, int),
    c: (int, int),
    x: (int, int),
    y: (int, int),
    z: (int, int),
) -> bool {
    ||| (a == x && b == y && c == z)
    ||| (a == x && b == z && c == y)
    ||| (a == y && b == x && c == z)
    ||| (a == y && b == z && c == x)
    ||| (a == z && b == x && c == y)
    ||| (a == z && b == y && c == x)
}

impl Dim {
    spec fn view(&self) -> (int, int) {
        (self.0 as int, self.1 as int)
    }

    /// Stride of this dimension.
    fn stride(self) -> (stride: usize)
        ensures
            stride == self@.0,
    {
        self.0
    }

    /// Length of this dimension in memory.
    fn checked_len(self) -> (len: Option<usize>)
        ensures
            self@.0 * self@.1 <= usize::MAX ==> len == Some((self@.0 * self@.1) as usize),
            self@.0 * self@.1 > usize::MAX ==> len is None,
    {
        self.0.checked_mul(self.1)
    }

    /// Length of this dimension in memory, which must be representable.
    fn len(self) -> (len: usize)
        requires
            self@.0 * self@.1 <= usize::MAX,
        ensures
            len == self@.0 * self@.1,
    {
        self.0 * self.1
    }

    /// Whether this dimension comes before `other`, or equals it, in increasing order.
    fn at_most(self, other: Dim) -> (b: bool)
        ensures
            b == dim_le(self@, other@),
    {
        self.0 < other.0 || (self.0 == other.0 && self.1 <= other.1)
    }
}

impl SampleLayout {
    /// Stride and extent of the channel dimension.
    pub open spec fn channel_dim(self) -> (int, int) {
        (self.channel_stride as int, self.channels as int)
    }

    /// Stride and extent in x-direction.
    pub open spec fn width_dim(self) -> (int, int) {
        (self.width_stride as int, self.width as int)
    }

    /// Stride and extent in y-direction.
    pub open spec fn height_dim(self) -> (int, int) {
        (self.height_stride as int, self.height as int)
    }

    /// Whether there is a sample at these coordinates.
    pub open spec fn contains(self, channel: int, x: int, y: int) -> bool {
        &&& 0 <= channel < self.channels
        &&& 0 <= x < self.width
        &&& 0 <= y < self.height
    }

    /// The position of a sample in the buffer.
    pub open spec fn offset(self, channel: int, x: int, y: int) -> int {
        channel * self.channel_stride + x * self.width_stride + y * self.height_stride
    }

    /// Whether the image has no samples.
    pub open spec fn is_empty(self) -> bool {
        self.channels == 0 || self.width == 0 || self.height == 0
    }

    /// The length of the part of a buffer that holds samples: one more than the position of the
    /// last sample.
    pub open spec fn span(self) -> int {
        if self.is_empty() {
            0
        } else {
            self.offset(self.channels - 1, self.width - 1, self.height - 1) + 1
        }
    }

    /// Whether some sample is at this position.
    pub open spec fn has_sample_at(self, position: int) -> bool {
        exists|c: int, x: int, y: int|
            self.contains(c, x, y) && #[trigger] self.offset(c, x, y) == position
    }

    /// Whether a stride of zero puts several samples at one position.
    pub open spec fn repeats_samples(self) -> bool {
        &&& !self.is_empty()
        &&& {
            ||| self.channel_stride == 0 && self.channels > 1
            ||| self.width_stride == 0 && self.width > 1
            ||| self.height_stride == 0 && self.height > 1
        }
    }

    /// Whether different samples have different positions.
    pub open spec fn samples_distinct(self) -> bool {
        forall|c: int, x: int, y: int, c2: int, x2: int, y2: int|
            {
                &&& self.contains(c, x, y)
                &&& self.contains(c2, x2, y2)
                &&& #[trigger] self.offset(c, x, y) == #[trigger] self.offset(c2, x2, y2)
            } ==> c == c2 && x == x2 && y == y2
    }

    /// Whether the length in memory of each dimension fits into a `usize`.
    pub open spec fn dims_fit(self) -> bool {
        &&& self.channel_stride * self.channels <= usize::MAX
        &&& self.width_stride * self.width <= usize::MAX
        &&& self.height_stride * self.height <= usize::MAX
    }

    /// Whether different samples have different positions, and neither these nor the length of
    /// any dimension overflows `usize`.
    pub open spec fn unaliased(self) -> bool {
        &&& self.dims_fit()
        &&& self.span() <= usize::MAX
        &&& self.samples_distinct()
    }

    /// Whether no stride repeats samples and each dimension with a larger stride walks over all of
    /// those with smaller ones.
    pub open spec fn nested(self) -> bool {
        let (c, w, h) = (self.channel_dim(), self.width_dim(), self.height_dim());
        &&& dim_walks_over(c, w)
        &&& dim_walks_over(c, h)
        &&& dim_walks_over(w, h)
        &&& !self.repeats_samples()
    }

    /// Whether there are different samples, `channels` channels apart, at one position.
    pub open spec fn collides_at(self, channels: int) -> bool {
        let (w, h) = (self.width_dim(), self.height_dim());
        if channels == 0 {
            comes_back(w.0, w.1, h.0, h.1)
        } else {
            reaches(w.0, w.1, h.0, h.1, channels * self.channel_stride)
        }
    }

    /// Whether the dimensions, in increasing order, follow each other without gaps.
    pub open spec fn image_packed(self) -> bool {
        let (c, w, h) = (self.channel_dim(), self.width_dim(), self.height_dim());
        ||| dims_packed(c, w, h)
        ||| dims_packed(c, h, w)
        ||| dims_packed(w, c, h)
        ||| dims_packed(w, h, c)
        ||| dims_packed(h, c, w)
        ||| dims_packed(h, w, c)
    }

    /// What a normal form asks of a layout.
    pub open spec fn normal(self, form: NormalForm) -> bool {
        &&& self.unaliased()
        &&& match form {
            NormalForm::Unaliased => true,
            NormalForm::PixelPacked => self.channel_stride == 1,
            NormalForm::ImagePacked => self.image_packed(),
            NormalForm::RowMajorPacked => {
                &&& self.channel_stride == 1
                &&& self.image_packed()
                &&& self.width_stride == self.channels
                &&& self.height_stride == self.width * self.width_stride
            },
            NormalForm::ColumnMajorPacked => {
                &&& self.channel_stride == 1
                &&& self.image_packed()
                &&& self.height_stride == self.channels
                &&& self.width_stride == self.height * self.height_stride
            },
        }
    }

    /// The layout with each extent limited to the given one.
    pub open spec fn shrunk(self, channels: u8, width: u32, height: u32) -> SampleLayout {
        SampleLayout {
            channels: if channels < self.channels { channels } else { self.channels },
            width: if width < self.width { width } else { self.width },
            height: if height < self.height { height } else { self.height },
            ..self
        }
    }

    /// Get the strides for indexing matrix-like `[(c, w, h)]`.
    ///
    /// For a row-major layout with grouped samples, this tuple is strictly increasing, unless
    /// there is only one channel or only one column.
    pub fn strides_cwh(&self) -> (strides: (usize, usize, usize))
        ensures
            strides == (self.channel_stride, self.width_stride, self.height_stride),
    {
        (self.channel_stride, self.width_stride, self.height_stride)
    }

    /// Get the dimensions (channels, width, height).
    ///
    /// The interface is optimized for use with `strides_cwh` instead. The channel extent will be
    /// before width and height.
    pub fn extents(&self) -> (extents: (usize, usize, usize))
        ensures
            extents == (self.channels as usize, self.width as usize, self.height as usize),
            extents.0 == self.channels,
            extents.1 == self.width,
            extents.2 == self.height,
    {
        (self.channels as usize, self.width as usize, self.height as usize)
    }

    /// Tuple of bounds in the order of coordinate inputs.
    ///
    /// This function should be used whenever working with image coordinates opposed to buffer
    /// coordinates.
    pub fn bounds(&self) -> (bounds: (u8, u32, u32))
        ensures
            bounds == (self.channels, self.width, self.height),
    {
        (self.channels, self.width, self.height)
    }

    /// Get the minimum length of a buffer such that all in-bounds samples have valid indices.
    ///
    /// This method will allow zero strides, allowing compact representations of monochrome images.
    /// To check that no aliasing occurs, try `has_aliased_samples`. For compact images (no
    /// aliasing and no unindexed samples) this is `width*height*channels`. But for both of the
    /// other cases, the reasoning is slightly more involved.
    ///
    /// `None` if that length does not fit into a `usize`.
    ///
    /// # Explanation
    ///
    /// Note that there is a difference between `min_length` and the index of the sample
    /// 'one-past-the-end'. This is due to strides that may be larger than the dimension below.
    ///
    /// ## Example with holes
    ///
    /// A grayscale image with `width_stride = 1`, `width = 2`, `height_stride = 3` and
    /// `height = 2` has a `min_length` of 5, while the row past the end starts at 6.
    ///
    /// ## Example with aliasing
    ///
    /// A grayscale image with `width_stride = 1`, `width = 3`, `height_stride = 2` and
    /// `height = 2` has a `min_length` of 5, while `height*height_stride` is 4 and still points
    /// inside the image.
    pub fn min_length(&self) -> (length: Option<usize>)
        ensures
            self.span() <= usize::MAX ==> length == Some(self.span() as usize),
            self.span() > usize::MAX ==> length is None,
    {
        if self.width == 0 || self.height == 0 || self.channels == 0 {
            return Some(0);
        }
        match self.index(self.channels - 1, self.width - 1, self.height - 1) {
            Some(idx) => idx.checked_add(1),
            None => None,
        }
    }

    /// Check if the buffer is large enough.
    pub fn fits(&self, len: usize) -> (fits: bool)
        ensures
            fits == (self.span() <= len),
    {
        match self.min_length() {
            Some(min) => len >= min,
            None => false,
        }
    }

    /// The extents of this array, in order of increasing strides.
    fn increasing_stride_dims(&self) -> (grouped: [Dim; 3])
        ensures
            dim_le(grouped[0]@, grouped[1]@),
            dim_le(grouped[1]@, grouped[2]@),
            dims_permuted(
                grouped[0]@,
                grouped[1]@,
                grouped[2]@,
                self.channel_dim(),
                self.width_dim(),
                self.height_dim(),
            ),
    {
        let channel = Dim(self.channel_stride, self.channels as usize);
        let width = Dim(self.width_stride, self.width as usize);
        let height = Dim(self.height_stride, self.height as usize);
        let (low, high) = if channel.at_most(width) { (channel, width) } else { (width, channel) };
        if high.at_most(height) {
            [low, high, height]
        } else if low.at_most(height) {
            [low, height, high]
        } else {
            [height, low, high]
        }
    }

    /// Whether a stride of zero puts several samples at one position.
    fn has_repeated_samples(&self) -> (repeated: bool)
        ensures
            repeated == self.repeats_samples(),
    {
        if self.width == 0 || self.height == 0 || self.channels == 0 {
            return false;
        }
        (self.channel_stride == 0 && self.channels > 1)
            || (self.width_stride == 0 && self.width > 1)
            || (self.height_stride == 0 && self.height > 1)
    }

    /// Whether different samples are at one position.
    ///
    /// Two such samples are apart by some number of channels, which can be made up for by some
    /// numbers of columns and rows.
    fn has_colliding_samples(&self) -> (colliding: bool)
        requires
            self.dims_fit(),
        ensures
            colliding == !self.samples_distinct(),
    {
        if self.width == 0 || self.height == 0 || self.channels == 0 {
            return false;
        }
        if self.has_repeated_samples() {
            proof {
                crate::laws::law_repeated_samples_are_aliased(*self);
            }
            return true;
        }
        // The stride of a dimension with one sample is never taken.
        let width_stride: usize = if self.width == 1 { 1 } else { self.width_stride };
        let height_stride: usize = if self.height == 1 { 1 } else { self.height_stride };
        let lattice = Lattice::new(
            width_stride,
            self.width as usize,
            height_stride,
            self.height as usize,
        );
        for channel in 0..self.channels
            invariant
                self.dims_fit(),
                !self.is_empty(),
                lattice.wf(),
                lattice.stride_a() == width_stride,
                lattice.stride_b() == height_stride,
                lattice.limit_a() == self.width,
                lattice.limit_b() == self.height,
                self.width == 1 || width_stride == self.width_stride,
                self.height == 1 || height_stride == self.height_stride,
                forall|p: int| 0 <= p < channel ==> !self.collides_at(p),
        {
            proof {
                let (w, h) = (self.width_dim(), self.height_dim());
                crate::lattice::lemma_unused_strides(
                    w.0,
                    width_stride as int,
                    w.1,
                    h.0,
                    height_stride as int,
                    h.1,
                    channel * self.channel_stride,
                );
                assert(0 <= channel * self.channel_stride <= self.channel_stride * self.channels)
                    by (nonlinear_arith)
                    requires
                        0 <= channel < self.channels,
                        0 <= self.channel_stride,
                ;
            }
            let found: bool = if channel == 0 {
                lattice.comes_back()
            } else {
                lattice.reaches(channel as usize * self.channel_stride)
            };
            assert(found == self.collides_at(channel as int));
            if found {
                proof {
                    crate::laws::lemma_distinct_by_channels(*self);
                }
                return true;
            }
        }
        proof {
            crate::laws::lemma_distinct_by_channels(*self);
        }
        false
    }

    /// If there are any samples aliasing each other.
    ///
    /// If this is not the case, it would always be safe to allow mutable access to two different
    /// samples at the same time. Otherwise, this operation would need additional checks. When one
    /// dimension overflows `usize` with its stride we also consider this aliasing, and likewise
    /// when `min_length` does.
    pub fn has_aliased_samples(&self) -> (aliased: bool)
        ensures
            aliased == !self.unaliased(),
    {
        let grouped = self.increasing_stride_dims();
        let (min_dim, mid_dim, max_dim) = (grouped[0], grouped[1], grouped[2]);

        let min_size: usize = match min_dim.checked_len() {
            None => return true,
            Some(size) => size,
        };

        let mid_size: usize = match mid_dim.checked_len() {
            None => return true,
            Some(size) => size,
        };

        // Only want to know this didn't overflow.
        if max_dim.checked_len().is_none() || self.min_length().is_none() {
            return true;
        }
        // Each higher dimension walks over all of one lower dimension, in most layouts.
        if min_size <= mid_dim.stride() && mid_size <= max_dim.stride()
            && !self.has_repeated_samples() {
            proof {
                crate::laws::law_nested_is_unaliased(*self);
            }
            return false;
        }
        self.has_colliding_samples()
    }

    /// Check if a buffer fulfills the requirements of a normal form.
    ///
    /// Certain conversions have preconditions on the structure of the sample buffer that are not
    /// captured (by design) by the type system. These are then checked before the conversion. Such
    /// checks can all be done in constant time and will not inspect the buffer content. You can
    /// perform these checks yourself when the conversion is not required at this moment but maybe
    /// still performed later.
    pub fn is_normal(&self, form: NormalForm) -> (normal: bool)
        ensures
            normal == self.normal(form),
    {
        if self.has_aliased_samples() {
            return false;
        }
        if form >= NormalForm::PixelPacked && self.channel_stride != 1 {
            return false;
        }
        if form >= NormalForm::ImagePacked {
            // has aliased already checked for overflows.
            let grouped = self.increasing_stride_dims();
            let (min_dim, mid_dim, max_dim) = (grouped[0], grouped[1], grouped[2]);

            if 1 != min_dim.stride() {
                return false;
            }
            if min_dim.len() != mid_dim.stride() {
                return false;
            }
            if mid_dim.len() != max_dim.stride() {
                return false;
            }
        }
        proof {
            vstd::arithmetic::mul::lemma_mul_is_commutative(
                self.width as int,
                self.width_stride as int,
            );
            vstd::arithmetic::mul::lemma_mul_is_commutative(
                self.height as int,
                self.height_stride as int,
            );
        }
        if form >= NormalForm::RowMajorPacked {
            if self.width_stride != self.channels as usize {
                return false;
            }
            if self.width as usize * self.width_stride != self.height_stride {
                return false;
            }
        }
        if form >= NormalForm::ColumnMajorPacked {
            if self.height_stride != self.channels as usize {
                return false;
            }
            if self.height as usize * self.height_stride != self.width_stride {
                return false;
            }
        }
        true
    }

    /// Check that the pixel and the channel index are in bounds.
    pub fn in_bounds(&self, channel: u8, x: u32, y: u32) -> (inside: bool)
        ensures
            inside == self.contains(channel as int, x as int, y as int),
    {
        channel < self.channels && x < self.width && y < self.height
    }

    /// Resolve the index of a particular sample.
    ///
    /// `None` if the index is outside the bounds or does not fit into a `usize`.
    pub fn index(&self, channel: u8, x: u32, y: u32) -> (index: Option<usize>)
        ensures
            ({
                let offset = self.offset(channel as int, x as int, y as int);
                if self.contains(channel as int, x as int, y as int) && offset <= usize::MAX {
                    index == Some(offset as usize)
                } else {
                    index is None
                }
            }),
    {
        if !self.in_bounds(channel, x, y) {
            return None;
        }
        self.index_ignoring_bounds(channel as usize, x as usize, y as usize)
    }

    /// Get the theoretical position of sample (channel, x, y).
    ///
    /// The 'check' is for overflow during index calculation, not that it is contained in the
    /// image.
    pub fn index_ignoring_bounds(&self, channel: usize, x: usize, y: usize) -> (index: Option<
        usize,
    >)
        ensures
            ({
                let offset = self.offset(channel as int, x as int, y as int);
                if offset <= usize::MAX {
                    index == Some(offset as usize)
                } else {
                    index is None
                }
            }),
    {
        proof {
            lemma_products_nonnegative(*self, channel as int, x as int, y as int);
        }
        let idx_c = channel.checked_mul(self.channel_stride);
        let idx_x = x.checked_mul(self.width_stride);
        let idx_y = y.checked_mul(self.height_stride);

        let (idx_c, idx_x, idx_y) = match (idx_c, idx_x, idx_y) {
            (Some(idx_c), Some(idx_x), Some(idx_y)) => (idx_c, idx_x, idx_y),
            _ => return None,
        };

        match idx_c.checked_add(idx_x) {
            Some(idx) => idx.checked_add(idx_y),
            None => None,
        }
    }

    /// Get an index provided it is inbounds.
    ///
    /// Assumes that the image is backed by some sufficiently large buffer. Then computation can
    /// not overflow as we could represent the maximum coordinate.
    pub fn in_bounds_index(&self, c: u8, x: u32, y: u32) -> (index: usize)
        requires
            self.offset(c as int, x as int, y as int) <= usize::MAX,
        ensures
            index == self.offset(c as int, x as int, y as int),
    {
        proof {
            lemma_products_nonnegative(*self, c as int, x as int, y as int);
        }
        let (c_stride, x_stride, y_stride) = self.strides_cwh();
        (y as usize * y_stride) + (x as usize * x_stride) + (c as usize * c_stride)
    }

    /// Shrink the image to the minimum of current and given extents.
    ///
    /// This does not modify the strides, so that the resulting sample buffer may have holes
    /// created by the shrinking operation. Shrinking could also lead to an non-aliasing image when
    /// samples had aliased each other before.
    pub fn shrink_to(&mut self, channels: u8, width: u32, height: u32)
        ensures
            *final(self) == old(self).shrunk(channels, width, height),
    {
        self.channels = self.channels.min(channels);
        self.width = self.width.min(width);
        self.height = self.height.min(height);
    }
}

/// The three parts of a sample's position are not negative for coordinates that are not.
proof fn lemma_products_nonnegative(layout: SampleLayout, channel: int, x: int, y: int)
    requires
        0 <= channel,
        0 <= x,
        0 <= y,
    ensures
        0 <= channel * layout.channel_stride,
        0 <= x * layout.width_stride,
        0 <= y * layout.height_stride,
{
    assert(0 <= channel * layout.channel_stride) by (nonlinear_arith)
        requires
            0 <= channel,
            0 <= layout.channel_stride,
    ;
    assert(0 <= x * layout.width_stride) by (nonlinear_arith)
        requires
            0 <= x,
            0 <= layout.width_stride,
    ;
    assert(0 <= y * layout.height_stride) by (nonlinear_arith)
        requires
            0 <= y,
            0 <= layout.height_stride,
    ;
}

} // verus!
