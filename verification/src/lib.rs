//! Flat sample buffers that can be viewed as images.
//!
//! A [`FlatSamples`] is a linear buffer of samples together with a [`SampleLayout`] that says
//! where the sample of each channel of each pixel is. It can be read as an image through a
//! [`View`], modified as one through a [`ViewMut`], and moved into an [`ImageBuffer`] if its
//! samples are packed in row-major form.

pub mod color;
pub mod error;
pub mod flat;
pub mod image_buffer;
pub mod lattice;
pub mod laws;
pub mod layout;
pub mod normal_form;
pub mod primitive;
pub mod samples;
pub mod view;
pub mod view_mut;

pub use color::{Blend, ColorType, Luma, LumaA, Pixel, Primitive, Rgb, Rgba};
pub use error::{Error, ImageError};
pub use flat::FlatSamples;
pub use image_buffer::{GrayAlphaImage, ImageBuffer};
pub use layout::SampleLayout;
pub use normal_form::NormalForm;
pub use samples::{AsSamples, AsSamplesMut};
pub use view::View;
pub use view_mut::ViewMut;
