use std::cmp::Ordering;

use flat_image::{FlatSamples, NormalForm, SampleLayout};

fn layout(
    (channels, channel_stride): (u8, usize),
    (width, width_stride): (u32, usize),
    (height, height_stride): (u32, usize),
) -> SampleLayout {
    SampleLayout { channels, channel_stride, width, width_stride, height, height_stride }
}

fn positions(layout: &SampleLayout) -> Vec<usize> {
    let mut positions = Vec::new();
    for y in 0..layout.height {
        for x in 0..layout.width {
            for c in 0..layout.channels {
                positions.push(layout.index(c, x, y).unwrap());
            }
        }
    }
    positions
}

fn has_duplicates(mut positions: Vec<usize>) -> bool {
    positions.sort();
    positions.windows(2).any(|pair| pair[0] == pair[1])
}

#[test]
fn strides_extents_and_bounds() {
    let layout = layout((3, 1), (5, 4), (7, 21));
    assert_eq!(layout.strides_cwh(), (1, 4, 21));
    assert_eq!(layout.extents(), (3, 5, 7));
    assert_eq!(layout.bounds(), (3, 5, 7));

    let flat = FlatSamples { samples: [0u8; 0], format: layout, color_hint: None };
    assert_eq!(flat.strides_cwh(), (1, 4, 21));
    assert_eq!(flat.extents(), (3, 5, 7));
    assert_eq!(flat.bounds(), (3, 5, 7));
}

#[test]
fn min_length_with_holes() {
    let layout = layout((1, 0), (2, 1), (2, 3));
    assert_eq!(layout.min_length(), Some(5));
    assert!(layout.fits(5));
    assert!(!layout.fits(4));
}

#[test]
fn min_length_with_aliasing() {
    let layout = layout((1, 0), (3, 1), (2, 2));
    assert_eq!(layout.min_length(), Some(5));
    assert_eq!(layout.index(0, 2, 1), Some(4));
}

#[test]
fn min_length_of_empty_images() {
    assert_eq!(layout((0, usize::MAX), (3, 1), (2, 2)).min_length(), Some(0));
    assert_eq!(layout((1, 1), (0, usize::MAX), (2, usize::MAX)).min_length(), Some(0));
    assert_eq!(layout((1, 1), (3, usize::MAX), (0, usize::MAX)).min_length(), Some(0));
    assert!(layout((1, 1), (0, usize::MAX), (2, usize::MAX)).fits(0));
}

#[test]
fn min_length_that_is_not_representable() {
    // The last position is representable, but not the length.
    let last = layout((2, usize::MAX), (1, 0), (1, 0));
    assert_eq!(last.index(1, 0, 0), Some(usize::MAX));
    assert_eq!(last.min_length(), None);
    assert!(!last.fits(usize::MAX));

    let over = layout((2, usize::MAX), (2, 1), (1, 0));
    assert_eq!(over.index(1, 1, 0), None);
    assert_eq!(over.min_length(), None);
    assert!(!over.fits(usize::MAX));
}

#[test]
fn min_length_is_the_least_that_fits_all_samples() {
    for layout in [
        layout((2, 1), (3, 9), (3, 28)),
        layout((3, 0), (4, 0), (5, 0)),
        layout((2, 8), (4, 1), (2, 4)),
        layout((2, 5), (4, 3), (2, 1)),
    ] {
        let largest = positions(&layout).into_iter().max().unwrap();
        assert_eq!(layout.min_length(), Some(largest + 1));
    }
}

#[test]
fn index_in_and_out_of_bounds() {
    let layout = layout((2, 1), (3, 2), (4, 6));
    assert_eq!(layout.index(0, 0, 0), Some(0));
    assert_eq!(layout.index(1, 2, 3), Some(1 + 4 + 18));
    assert_eq!(layout.in_bounds_index(1, 2, 3), 23);
    assert!(layout.in_bounds(1, 2, 3));
    for (c, x, y) in [(2, 0, 0), (0, 3, 0), (0, 0, 4)] {
        assert!(!layout.in_bounds(c, x, y));
        assert_eq!(layout.index(c, x, y), None);
    }
    assert_eq!(layout.index_ignoring_bounds(2, 3, 4), Some(2 + 6 + 24));

    let flat = FlatSamples { samples: [0u8; 0], format: layout, color_hint: None };
    assert_eq!(flat.index(1, 2, 3), Some(23));
    assert_eq!(flat.index(2, 2, 3), None);
    assert_eq!(flat.index_ignoring_bounds(2, 3, 4), Some(32));
    assert_eq!(flat.in_bounds_index(1, 2, 3), 23);
    assert!(flat.in_bounds(1, 2, 3));
    assert!(!flat.in_bounds(1, 2, 4));
}

#[test]
fn index_calculation_overflows() {
    let product = layout((1, 1), (3, usize::MAX / 2 + 1), (1, 1));
    assert_eq!(product.index(0, 1, 0), Some(usize::MAX / 2 + 1));
    assert_eq!(product.index(0, 2, 0), None);
    assert_eq!(product.index_ignoring_bounds(0, 2, 0), None);

    let sum = layout((2, usize::MAX), (2, 1), (2, 1));
    assert_eq!(sum.index(1, 0, 0), Some(usize::MAX));
    assert_eq!(sum.index(1, 1, 0), None);
    assert_eq!(sum.index(1, 0, 1), None);
}

#[test]
fn zero_strides_alias() {
    let all = layout((3, 0), (100, 0), (100, 0));
    assert!(all.has_aliased_samples());
    assert_eq!(all.min_length(), Some(1));

    let rows = layout((2, 1), (3, 2), (2, 0));
    assert!(rows.has_aliased_samples());
    assert!(has_duplicates(positions(&rows)));

    let packed_pixels = layout((2, 1), (100, 0), (100, 0));
    assert!(packed_pixels.has_aliased_samples());
    assert!(!packed_pixels.is_normal(NormalForm::PixelPacked));

    // A stride is not used where there is one sample only.
    let single = layout((1, 0), (4, 1), (2, 4));
    assert!(!single.has_aliased_samples());
    assert!(!has_duplicates(positions(&single)));

    // There is nothing to alias where there is no sample.
    assert!(!layout((0, 0), (4, 0), (2, 0)).has_aliased_samples());
}

#[test]
fn overlapping_strides_alias() {
    let rows = layout((1, 0), (3, 1), (2, 2));
    assert!(rows.has_aliased_samples());
    assert!(has_duplicates(positions(&rows)));

    let channels = layout((3, 1), (4, 2), (2, 8));
    assert!(channels.has_aliased_samples());
    assert!(has_duplicates(positions(&channels)));
}

#[test]
fn interleaved_strides_do_not_alias() {
    let rows = layout((1, 1), (2, 2), (2, 3));
    assert_eq!(positions(&rows), [0, 2, 3, 5]);
    assert!(!rows.has_aliased_samples());
    assert!(rows.is_normal(NormalForm::PixelPacked));

    // The stride of a single column is never taken.
    let column = layout((3, 1), (1, 2), (2, 3));
    assert_eq!(positions(&column), [0, 1, 2, 3, 4, 5]);
    assert!(!column.has_aliased_samples());

    // There is nothing to alias where there is no sample.
    assert!(!layout((3, 1), (0, 1), (5, 1)).has_aliased_samples());

    // The dimensions interleave in all directions.
    let all = layout((2, 15), (3, 10), (5, 6));
    assert!(!all.has_aliased_samples());
    assert!(!has_duplicates(positions(&all)));
    let one_more = layout((3, 15), (4, 10), (5, 6));
    assert!(one_more.has_aliased_samples());
    assert_eq!(one_more.index(2, 0, 0), one_more.index(0, 3, 0));
}

#[test]
fn collisions_over_three_dimensions() {
    // Two columns back and one row forward make up for one channel.
    let layout = layout((2, 1), (3, 50), (2, 101));
    assert_eq!(layout.index(1, 2, 0), layout.index(0, 0, 1));
    assert!(layout.has_aliased_samples());
}

#[test]
fn collisions_of_large_strides() {
    let (a, b) = (3_000_000_007usize, 3_000_000_009usize);
    let (wide, high) = (3_000_000_009u32, 3_000_000_009u32);
    // The strides have no common divisor, so that no fewer steps of one make up for the other.
    assert!(!layout((1, 1), (wide, a), (high, b)).has_aliased_samples());
    assert!(layout((1, 1), (wide + 1, a), (high, b)).has_aliased_samples());
    assert!(layout((2, 2), (2, a), (2, b)).has_aliased_samples());
    assert!(!layout((2, 3), (2, a), (2, b)).has_aliased_samples());
}

#[test]
fn aliasing_is_that_of_positions() {
    let dims: Vec<(u32, usize)> =
        (0..4).flat_map(|extent| (0..9).map(move |stride| (extent, stride))).collect();
    for c in &dims {
        for w in &dims {
            for h in &dims {
                let layout = layout((c.0 as u8, c.1), *w, *h);
                assert_eq!(layout.has_aliased_samples(), has_duplicates(positions(&layout)));
            }
        }
    }
}

#[test]
fn overflowing_dimensions_alias() {
    assert!(layout((1, 1), (1, 1), (2, usize::MAX)).has_aliased_samples());
    assert!(layout((1, 1), (2, usize::MAX / 2 + 1), (0, usize::MAX)).has_aliased_samples());
    assert!(!layout((1, 1), (1, 1), (1, usize::MAX)).has_aliased_samples());
    assert!(layout((2, usize::MAX), (1, usize::MAX), (1, usize::MAX)).has_aliased_samples());
    // Each dimension is representable, but not all of them together.
    let together = layout((1, 1), (2, usize::MAX / 2), (3, usize::MAX / 3));
    assert_eq!(together.min_length(), None);
    assert!(together.has_aliased_samples());
}

#[test]
fn unaliased_samples_are_distinct() {
    for layout in [
        layout((2, 1), (3, 2), (3, 6)),
        layout((2, 1), (3, 9), (3, 28)),
        layout((2, 8), (4, 1), (2, 4)),
        layout((2, 4), (4, 8), (4, 1)),
        layout((1, 7), (7, 1), (3, 7)),
    ] {
        assert!(!layout.has_aliased_samples());
        assert!(!has_duplicates(positions(&layout)));
        assert!(layout.min_length().is_some());
    }
}

#[test]
fn packed_images_have_no_holes() {
    for layout in [
        layout((2, 1), (4, 2), (3, 8)),
        layout((2, 12), (4, 1), (3, 4)),
        layout((2, 1), (4, 6), (3, 2)),
        layout((2, 4), (4, 1), (3, 8)),
    ] {
        assert!(layout.is_normal(NormalForm::ImagePacked));
        assert_eq!(layout.min_length(), Some(2 * 4 * 3));
        let mut positions = positions(&layout);
        positions.sort();
        assert_eq!(positions, (0..24).collect::<Vec<usize>>());
    }
}

#[test]
fn images_without_holes_are_packed() {
    // Every layout of 3x4 pixels with two channels and small strides.
    let mut packed = 0;
    for cs in 0..14 {
        for ws in 0..14 {
            for hs in 0..14 {
                let layout = layout((2, cs), (3, ws), (4, hs));
                let mut positions = positions(&layout);
                positions.sort();
                let filled = positions == (0..24).collect::<Vec<usize>>();
                assert_eq!(!layout.has_aliased_samples() && layout.min_length() == Some(24), filled);
                assert_eq!(layout.is_normal(NormalForm::ImagePacked), filled);
                packed += filled as usize;
            }
        }
    }
    assert_eq!(packed, 6);

    // A dimension of one sample can have any stride.
    let layout = layout((1, 9), (3, 1), (4, 3));
    assert!(!layout.has_aliased_samples());
    assert_eq!(layout.min_length(), Some(12));
    assert!(!layout.is_normal(NormalForm::ImagePacked));
}

#[test]
fn row_and_column_major_positions() {
    let rows = layout((2, 1), (4, 2), (3, 8));
    assert!(rows.is_normal(NormalForm::RowMajorPacked));
    assert_eq!(rows.index(1, 3, 2), Some((2 * 4 + 3) * 2 + 1));
    let (c, w, h) = rows.strides_cwh();
    assert!(c < w && w < h);

    let columns = layout((2, 1), (4, 6), (3, 2));
    assert!(columns.is_normal(NormalForm::ColumnMajorPacked));
    assert_eq!(columns.index(1, 3, 2), Some((3 * 3 + 2) * 2 + 1));
}

#[test]
fn normal_forms_that_do_not_hold() {
    let forms = [
        NormalForm::Unaliased,
        NormalForm::PixelPacked,
        NormalForm::ImagePacked,
        NormalForm::RowMajorPacked,
        NormalForm::ColumnMajorPacked,
    ];
    let holds = |layout: SampleLayout| {
        forms.iter().map(|form| layout.is_normal(*form)).collect::<Vec<bool>>()
    };
    assert_eq!(holds(layout((2, 2), (2, 4), (2, 8))), [true, false, false, false, false]);
    assert_eq!(holds(layout((2, 1), (3, 9), (3, 28))), [true, true, false, false, false]);
    assert_eq!(holds(layout((2, 8), (4, 1), (2, 4))), [true, false, true, false, false]);
    assert_eq!(holds(layout((2, 1), (4, 2), (2, 8))), [true, true, true, true, false]);
    assert_eq!(holds(layout((2, 1), (4, 4), (2, 2))), [true, true, true, false, true]);
    assert_eq!(holds(layout((2, 1), (4, 1), (2, 8))), [false; 5]);
    // A single pixel is in both orders.
    assert_eq!(holds(layout((2, 1), (1, 2), (1, 2))), [true; 5]);
    // One channel without a stride is not packed.
    assert_eq!(holds(layout((1, 0), (4, 1), (2, 4))), [true, false, false, false, false]);
}

#[test]
fn order_of_normal_forms() {
    let forms = [
        NormalForm::Unaliased,
        NormalForm::PixelPacked,
        NormalForm::ImagePacked,
        NormalForm::RowMajorPacked,
        NormalForm::ColumnMajorPacked,
    ];
    let expected = [
        [Some(Ordering::Equal), Some(Ordering::Less), Some(Ordering::Less), Some(Ordering::Less), Some(Ordering::Less)],
        [Some(Ordering::Greater), Some(Ordering::Equal), None, Some(Ordering::Less), Some(Ordering::Less)],
        [Some(Ordering::Greater), None, Some(Ordering::Equal), Some(Ordering::Less), Some(Ordering::Less)],
        [Some(Ordering::Greater), Some(Ordering::Greater), Some(Ordering::Greater), Some(Ordering::Equal), None],
        [Some(Ordering::Greater), Some(Ordering::Greater), Some(Ordering::Greater), None, Some(Ordering::Equal)],
    ];
    for (i, a) in forms.iter().enumerate() {
        for (j, b) in forms.iter().enumerate() {
            assert_eq!(a.partial_cmp(b), expected[i][j]);
        }
    }
    assert!(NormalForm::RowMajorPacked >= NormalForm::PixelPacked);
    assert!(!(NormalForm::PixelPacked >= NormalForm::ImagePacked));
}

#[test]
fn smaller_normal_forms_follow_from_larger_ones() {
    let forms = [
        NormalForm::Unaliased,
        NormalForm::PixelPacked,
        NormalForm::ImagePacked,
        NormalForm::RowMajorPacked,
        NormalForm::ColumnMajorPacked,
    ];
    for layout in [
        layout((2, 1), (4, 2), (2, 8)),
        layout((2, 1), (4, 4), (2, 2)),
        layout((2, 8), (4, 1), (2, 4)),
        layout((2, 1), (3, 9), (3, 28)),
    ] {
        for a in forms {
            for b in forms {
                if a <= b && layout.is_normal(b) {
                    assert!(layout.is_normal(a));
                }
            }
        }
    }
}

#[test]
fn shrinking() {
    let before = layout((3, 1), (4, 3), (5, 12));
    let mut shrunk = before;
    shrunk.shrink_to(2, 9, 1);
    assert_eq!(shrunk, layout((2, 1), (4, 3), (1, 12)));
    assert_eq!(shrunk.index(1, 3, 0), before.index(1, 3, 0));
    assert!(shrunk.min_length() <= before.min_length());
    assert!(before.is_normal(NormalForm::RowMajorPacked));
    assert!(!shrunk.is_normal(NormalForm::ImagePacked));
    assert!(shrunk.is_normal(NormalForm::PixelPacked));

    let mut again = shrunk;
    again.shrink_to(3, 2, 2);
    let mut once = before;
    once.shrink_to(2, 2, 1);
    assert_eq!(again, once);

    let mut aliased = layout((1, 0), (3, 1), (2, 2));
    assert!(aliased.has_aliased_samples());
    aliased.shrink_to(1, 2, 2);
    assert!(!aliased.has_aliased_samples());

    let mut flat = FlatSamples { samples: vec![1u8, 2], format: before, color_hint: None };
    flat.shrink_to(2, 9, 1);
    assert_eq!(flat.format, shrunk);
    assert_eq!(flat.samples, [1, 2]);
}
