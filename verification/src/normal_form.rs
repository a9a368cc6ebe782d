//! The normal forms of sample buffers and their order.

use vstd::prelude::*;

verus! {

/// Different normal forms of buffers.
///
/// A normal form is an unaliased buffer with some additional constraints. Image buffers use row
/// major form with packed samples.
#[derive(Clone, Copy, Debug, PartialEq, Eq, Hash, Structural)]
pub enum NormalForm {
    /// No pixel aliases another.
    ///
    /// Unaliased also guarantees that all index calculations in the image bounds using
    /// `dim_index*dim_stride` (such as `x*width_stride + y*height_stride`) do not overflow.
    Unaliased,
    /// At least pixels are packed.
    ///
    /// The samples of one pixel are adjacent, so that a pixel is a subslice of the buffer.
    PixelPacked,
    /// All samples are packed.
    ///
    /// This is orthogonal to `PixelPacked`. It requires that there are no holes in the image but
    /// it is not necessary that the pixel samples themselves are adjacent. An example of this
    /// behaviour is a planar image format.
    ImagePacked,
    /// The samples are in row-major form and all samples are packed.
    ///
    /// In addition to `PixelPacked` and `ImagePacked` this also asserts that the pixel matrix is
    /// in row-major form.
    RowMajorPacked,
    /// The samples are in column-major form and all samples are packed.
    ///
    /// In addition to `PixelPacked` and `ImagePacked` this also asserts that the pixel matrix is
    /// in column-major form.
    ColumnMajorPacked,
}

impl NormalForm {
    /// Whether this form has every precondition of `other`, and more.
    pub open spec fn extends(self, other: NormalForm) -> bool {
        match self {
            NormalForm::Unaliased => false,
            NormalForm::PixelPacked | NormalForm::ImagePacked => other is Unaliased,
            NormalForm::RowMajorPacked | NormalForm::ColumnMajorPacked => {
                other is Unaliased || other is PixelPacked || other is ImagePacked
            },
        }
    }
}

impl PartialOrd for NormalForm {
    /// Compares the logical preconditions.
    ///
    /// `a < b` if the normal form `a` has less preconditions than `b`.
    fn partial_cmp(&self, other: &Self) -> (order: Option<std::cmp::Ordering>) {
        match (*self, *other) {
            (NormalForm::Unaliased, NormalForm::Unaliased) => Some(std::cmp::Ordering::Equal),
            (NormalForm::PixelPacked, NormalForm::PixelPacked) => Some(std::cmp::Ordering::Equal),
            (NormalForm::ImagePacked, NormalForm::ImagePacked) => Some(std::cmp::Ordering::Equal),
            (NormalForm::RowMajorPacked, NormalForm::RowMajorPacked) => {
                Some(std::cmp::Ordering::Equal)
            },
            (NormalForm::ColumnMajorPacked, NormalForm::ColumnMajorPacked) => {
                Some(std::cmp::Ordering::Equal)
            },
            (NormalForm::Unaliased, _) => Some(std::cmp::Ordering::Less),
            (_, NormalForm::Unaliased) => Some(std::cmp::Ordering::Greater),
            (NormalForm::PixelPacked, NormalForm::ColumnMajorPacked) => {
                Some(std::cmp::Ordering::Less)
            },
            (NormalForm::PixelPacked, NormalForm::RowMajorPacked) => Some(std::cmp::Ordering::Less),
            (NormalForm::RowMajorPacked, NormalForm::PixelPacked) => {
                Some(std::cmp::Ordering::Greater)
            },
            (NormalForm::ColumnMajorPacked, NormalForm::PixelPacked) => {
                Some(std::cmp::Ordering::Greater)
            },
            (NormalForm::ImagePacked, NormalForm::ColumnMajorPacked) => {
                Some(std::cmp::Ordering::Less)
            },
            (NormalForm::ImagePacked, NormalForm::RowMajorPacked) => Some(std::cmp::Ordering::Less),
            (NormalForm::RowMajorPacked, NormalForm::ImagePacked) => {
                Some(std::cmp::Ordering::Greater)
            },
            (NormalForm::ColumnMajorPacked, NormalForm::ImagePacked) => {
                Some(std::cmp::Ordering::Greater)
            },
            (NormalForm::ImagePacked, NormalForm::PixelPacked) => None,
            (NormalForm::PixelPacked, NormalForm::ImagePacked) => None,
            (NormalForm::RowMajorPacked, NormalForm::ColumnMajorPacked) => None,
            (NormalForm::ColumnMajorPacked, NormalForm::RowMajorPacked) => None,
        }
    }
}

impl vstd::std_specs::cmp::PartialOrdSpecImpl for NormalForm {
    open spec fn obeys_partial_cmp_spec() -> bool {
        true
    }

    open spec fn partial_cmp_spec(&self, other: &Self) -> Option<std::cmp::Ordering> {
        if *self == *other {
            Some(std::cmp::Ordering::Equal)
        } else if other.extends(*self) {
            Some(std::cmp::Ordering::Less)
        } else if self.extends(*other) {
            Some(std::cmp::Ordering::Greater)
        } else {
            None
        }
    }
}

} // verus!
