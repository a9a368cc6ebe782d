# flat_image

Flat buffers of samples that can be used as images, verified with Verus.

A `FlatSamples` is a linear container of samples with a `SampleLayout`: the number of channels,
the width and the height of the image, and a stride for each of them. The strides are free, so that
a buffer can group its samples by pixel, by row, by column or by color plane, leave holes between
them, or store an image of one color in a single sample.

- `src/layout.rs` has the layouts: the position of a sample, the length of the buffer that they
  need, and the checks for aliased samples and for normal forms.
- `src/lattice.rs` decides where steps of two strides can lead, which tells whether two samples of
  a layout share a position.
- `src/normal_form.rs` has the normal forms and their order.
- `src/flat.rs` has the buffers, `src/view.rs` the images that can be read and `src/view_mut.rs`
  those that can be modified.
- `src/image_buffer.rs` has the packed row-major images that a buffer can be moved into.
- `src/samples.rs` has the containers that a buffer can use, `src/color.rs` the pixels, and
  `src/primitive.rs` the types that samples can have.
- `src/error.rs` has the errors.
- `src/laws.rs` has what holds of all layouts: when samples are aliased, that the positions of
  unaliased ones do not overflow, that packed images have no holes and which images without holes
  are packed, what shrinking keeps, and that the order of normal forms is that of implication. The
  laws on reading and writing pixels stand beside the views.
- `app/` has entry points for callers that are not verified, and the blending of pixels with an
  alpha channel, which is floating point.

The zeros of the primitive types come from `num_traits`; that each is the number zero is taken on
trust.
