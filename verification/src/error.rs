//! Errors of conversions between sample buffers and images.

use vstd::prelude::*;

use crate::color::ColorType;
use crate::normal_form::NormalForm;

verus! {

/// Denotes invalid flat sample buffers when trying to convert to stricter types.
///
/// The biggest use case being `ImageBuffer` which expects closely packed samples in a row major
/// matrix representation. But this error type may be reused for other import functions. A more
/// versatile user may also try to correct the underlying representation depending on the error
/// variant.
#[derive(Clone, Copy, Debug, PartialEq, Eq, Hash, Structural)]
pub enum Error {
    /// The represented image was too large.
    TooLarge,
    /// The represented image can not use this representation.
    ///
    /// The normalized form that would be accepted.
    NormalFormRequired(NormalForm),
    /// The color format did not match the channel count.
    ///
    /// In some cases you might be able to fix this by lowering the reported pixel count of the
    /// buffer without touching the strides.
    ///
    /// In very special circumstances you *may* do the opposite. This is **VERY** dangerous but not
    /// directly memory unsafe although that will likely alias pixels. One scenario is when you
    /// want to construct an `Rgba` image but have only 3 bytes per pixel and for some reason don't
    /// care about the value of the alpha channel even though you need `Rgba`.
    WrongColor(ColorType),
}

/// An enumeration of image errors.
#[derive(Debug)]
pub enum ImageError {
    /// The image is not formatted properly.
    FormatError(String),
    /// The image's dimensions are either too small or too large.
    DimensionError,
    /// The color type is not supported by this operation.
    UnsupportedColor(ColorType),
}

/// The message that a sample buffer in some normal form is required.
pub open spec fn normal_form_message(form: NormalForm) -> Seq<char> {
    match form {
        NormalForm::Unaliased => "Required sample buffer in normal form Unaliased"@,
        NormalForm::PixelPacked => "Required sample buffer in normal form PixelPacked"@,
        NormalForm::ImagePacked => "Required sample buffer in normal form ImagePacked"@,
        NormalForm::RowMajorPacked => "Required sample buffer in normal form RowMajorPacked"@,
        NormalForm::ColumnMajorPacked => {
            "Required sample buffer in normal form ColumnMajorPacked"@
        },
    }
}

impl From<Error> for ImageError {
    fn from(error: Error) -> (converted: ImageError)
        ensures
            match error {
                Error::TooLarge => converted is DimensionError,
                Error::WrongColor(color) => converted matches ImageError::UnsupportedColor(c) && c
                    == color,
                Error::NormalFormRequired(form) => converted matches ImageError::FormatError(
                    message,
                ) && message@ == normal_form_message(form),
            },
    {
        match error {
            Error::TooLarge => ImageError::DimensionError,
            Error::WrongColor(color) => ImageError::UnsupportedColor(color),
            Error::NormalFormRequired(form) => {
                let message = match form {
                    NormalForm::Unaliased => "Required sample buffer in normal form Unaliased",
                    NormalForm::PixelPacked => "Required sample buffer in normal form PixelPacked",
                    NormalForm::ImagePacked => "Required sample buffer in normal form ImagePacked",
                    NormalForm::RowMajorPacked => {
                        "Required sample buffer in normal form RowMajorPacked"
                    },
                    NormalForm::ColumnMajorPacked => {
                        "Required sample buffer in normal form ColumnMajorPacked"
                    },
                };
                ImageError::FormatError(message.to_owned())
            },
        }
    }
}

/// A message is known by its characters only, so that no single value is the result of `from`.
impl vstd::std_specs::convert::FromSpecImpl<Error> for ImageError {
    open spec fn obeys_from_spec() -> bool {
        false
    }

    open spec fn from_spec(error: Error) -> ImageError {
        arbitrary()
    }
}

} // verus!
