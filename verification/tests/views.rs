use flat_image::{
    ColorType, Error, FlatSamples, Luma, LumaA, NormalForm, Rgb, Rgba, SampleLayout,
};

fn planar_rgb() -> FlatSamples<Vec<u8>> {
    FlatSamples {
        samples: (0..14).collect(),
        format: SampleLayout {
            channels: 3,
            channel_stride: 4,
            width: 2,
            width_stride: 1,
            height: 2,
            height_stride: 2,
        },
        color_hint: Some(ColorType::RGB(8)),
    }
}

fn padded_gray_alpha() -> FlatSamples<Vec<u16>> {
    FlatSamples {
        samples: (0..20).collect(),
        format: SampleLayout {
            channels: 2,
            channel_stride: 1,
            width: 2,
            width_stride: 4,
            height: 2,
            height_stride: 9,
        },
        color_hint: None,
    }
}

#[test]
fn view_reads_planes() {
    let flat = planar_rgb();
    let view = flat.as_view::<Rgb<u8>>().unwrap();
    assert_eq!(view.dimensions(), (2, 2));
    assert_eq!(view.bounds(), (0, 2, 0, 2));
    assert!(view.in_bounds(1, 1));
    assert!(!view.in_bounds(2, 1));
    assert!(!view.in_bounds(1, 2));
    assert_eq!(view.get_pixel(0, 0), Rgb([0, 4, 8]));
    assert_eq!(view.get_pixel(1, 0), Rgb([1, 5, 9]));
    assert_eq!(view.get_pixel(1, 1), Rgb([3, 7, 11]));
    assert_eq!(view.inner().get_pixel(0, 1), Rgb([2, 6, 10]));
    assert_eq!(view.get_sample(2, 1, 1), Some(&11));
    assert_eq!(view.get_sample(3, 1, 1), None);
    assert_eq!(view.get_sample(2, 2, 1), None);
    assert_eq!(view.get_sample(2, 1, 2), None);
    assert_eq!(view.min_length(), 12);
    assert_eq!(view.image_slice(), &flat.samples[..12]);
    assert_eq!(view.samples().len(), 14);
    assert_eq!(view.flat().format, flat.format);
    assert_eq!(view.clone().get_pixel(1, 0), Rgb([1, 5, 9]));
    let inner = view.into_inner();
    assert_eq!(inner.color_hint, Some(ColorType::RGB(8)));
    assert_eq!(inner.samples, &flat.samples[..]);
}

#[test]
fn view_errors() {
    let mut flat = planar_rgb();
    assert_eq!(
        flat.as_view::<LumaA<u8>>().unwrap_err(),
        Error::WrongColor(ColorType::GrayA(8))
    );
    assert_eq!(
        flat.as_view::<Rgba<u8>>().unwrap_err(),
        Error::WrongColor(ColorType::RGBA(8))
    );
    flat.samples.truncate(11);
    assert_eq!(flat.as_view::<Rgb<u8>>().unwrap_err(), Error::TooLarge);
    // The color is tested first.
    assert_eq!(
        flat.as_view::<Luma<u8>>().unwrap_err(),
        Error::WrongColor(ColorType::Gray(8))
    );
    flat.format.height = 0;
    assert!(flat.as_view::<Rgb<u8>>().is_ok());
}

#[test]
fn lowering_channels_fixes_color() {
    let mut flat = planar_rgb();
    flat.shrink_to(1, 2, 2);
    let view = flat.as_view::<Luma<u8>>().unwrap();
    assert_eq!(view.get_pixel(1, 1), Luma([3]));
}

#[test]
fn shrunken_view_keeps_pixels() {
    let flat = planar_rgb();
    let mut view = flat.as_view::<Rgb<u8>>().unwrap();
    view.shrink_to(1, 5, 1);
    assert_eq!(view.dimensions(), (2, 1));
    assert_eq!(view.min_length(), 2);
    assert_eq!(view.get_sample(1, 0, 0), None);
    assert_eq!(view.get_sample(0, 1, 0), Some(&1));
    // A pixel has all of its channels, though some are hidden.
    assert_eq!(view.get_pixel(1, 0), Rgb([1, 5, 9]));
}

#[test]
fn mutable_view_errors() {
    let mut planes = planar_rgb();
    assert_eq!(
        planes.as_view_mut::<Rgb<u8>>().unwrap_err(),
        Error::NormalFormRequired(NormalForm::PixelPacked)
    );

    let mut flat = padded_gray_alpha();
    assert_eq!(
        flat.as_view_mut::<Luma<u16>>().unwrap_err(),
        Error::WrongColor(ColorType::Gray(16))
    );
    flat.samples.truncate(14);
    assert_eq!(flat.as_view_mut::<LumaA<u16>>().unwrap_err(), Error::TooLarge);
    assert_eq!(flat.samples, (0..14).collect::<Vec<u16>>());

    // All pixels are at one place.
    flat.format.width_stride = 0;
    flat.format.height_stride = 0;
    assert_eq!(
        flat.as_view_mut::<LumaA<u16>>().unwrap_err(),
        Error::NormalFormRequired(NormalForm::PixelPacked)
    );
    assert!(flat.as_view::<LumaA<u16>>().is_ok());
}

#[test]
fn mutable_view_of_interleaved_pixels() {
    let mut flat = FlatSamples {
        samples: [0u8; 6],
        format: SampleLayout {
            channels: 1,
            channel_stride: 1,
            width: 2,
            width_stride: 2,
            height: 2,
            height_stride: 3,
        },
        color_hint: None,
    };
    let mut view = flat.as_view_mut::<Luma<u8>>().unwrap();
    view.put_pixel(0, 0, Luma([1]));
    view.put_pixel(1, 0, Luma([2]));
    view.put_pixel(0, 1, Luma([3]));
    view.put_pixel(1, 1, Luma([4]));
    assert_eq!(view.get_pixel(1, 0), Luma([2]));
    assert_eq!(flat.samples, [1, 0, 2, 3, 0, 4]);
}

#[test]
fn mutable_view_reads() {
    let mut flat = padded_gray_alpha();
    let view = flat.as_view_mut::<LumaA<u16>>().unwrap();
    assert_eq!(view.dimensions(), (2, 2));
    assert_eq!(view.bounds(), (0, 2, 0, 2));
    assert!(view.in_bounds(0, 1));
    assert!(!view.in_bounds(0, 2));
    assert_eq!(view.get_pixel(1, 1), LumaA([13, 14]));
    assert_eq!(view.inner().get_pixel(0, 1), LumaA([9, 10]));
    assert_eq!(view.get_sample(1, 1, 0), Some(&5));
    assert_eq!(view.get_sample(2, 1, 0), None);
    assert_eq!(view.min_length(), 15);
    assert_eq!(view.image_slice(), (0..15).collect::<Vec<u16>>());
    assert_eq!(view.samples().len(), 20);
    assert_eq!(view.flat().format.width_stride, 4);
    let inner = view.into_inner();
    inner.samples[19] = 190;
    assert_eq!(flat.samples[19], 190);
}

#[test]
fn written_pixel_is_read_back_and_others_are_kept() {
    let mut flat = padded_gray_alpha();
    let mut view = flat.as_view_mut::<LumaA<u16>>().unwrap();
    view.put_pixel(1, 0, LumaA([100, 101]));
    assert_eq!(view.get_pixel(1, 0), LumaA([100, 101]));
    assert_eq!(view.get_pixel(0, 0), LumaA([0, 1]));
    assert_eq!(view.get_pixel(0, 1), LumaA([9, 10]));
    assert_eq!(view.get_pixel(1, 1), LumaA([13, 14]));
    let mut expected: Vec<u16> = (0..20).collect();
    expected[4] = 100;
    expected[5] = 101;
    assert_eq!(flat.samples, expected);
}

#[test]
fn writes_go_through_to_the_buffer() {
    let mut flat = padded_gray_alpha();
    {
        let mut view = flat.as_view_mut::<LumaA<u16>>().unwrap();
        *view.get_mut_sample(1, 1, 1).unwrap() = 200;
        assert!(view.get_mut_sample(2, 1, 1).is_none());
        assert!(view.get_mut_sample(1, 2, 1).is_none());
        view.image_mut_slice()[2] = 201;
        view.get_pixel_mut(0, 1)[1] = 202;
        view.inner_mut().put_pixel(0, 0, LumaA([203, 204]));
        assert_eq!(view.image_mut_slice().len(), 15);
    }
    let mut expected: Vec<u16> = (0..20).collect();
    expected[14] = 200;
    expected[2] = 201;
    expected[10] = 202;
    expected[0] = 203;
    expected[1] = 204;
    assert_eq!(flat.samples, expected);
}

#[test]
fn shrunken_mutable_view() {
    let mut flat = padded_gray_alpha();
    let mut view = flat.as_view_mut::<LumaA<u16>>().unwrap();
    view.shrink_to(1, 1, 9);
    assert_eq!(view.dimensions(), (1, 2));
    assert_eq!(view.min_length(), 10);
    assert!(view.get_mut_sample(1, 0, 0).is_none());
    view.put_pixel(0, 1, LumaA([90, 91]));
    assert_eq!(view.get_pixel(0, 1), LumaA([90, 91]));
    assert_eq!(flat.samples[9..11], [90, 91]);
}

#[test]
fn opaque_pixels_cover_when_blended() {
    let mut flat = FlatSamples {
        samples: [1u8, 2, 3, 4, 5, 6],
        format: SampleLayout {
            channels: 3,
            channel_stride: 1,
            width: 2,
            width_stride: 3,
            height: 1,
            height_stride: 6,
        },
        color_hint: None,
    };
    let mut view = flat.as_view_mut::<Rgb<u8>>().unwrap();
    view.blend_pixel(1, 0, Rgb([7, 8, 9]));
    assert_eq!(flat.samples, [1, 2, 3, 7, 8, 9]);

    flat.format.channels = 1;
    let mut view = flat.as_view_mut::<Luma<u8>>().unwrap();
    view.blend_pixel(0, 0, Luma([20]));
    assert_eq!(flat.samples, [20, 2, 3, 7, 8, 9]);
}

#[test]
fn signed_samples() {
    let flat = FlatSamples {
        samples: [-1i32, -2, -3],
        format: SampleLayout {
            channels: 1,
            channel_stride: 1,
            width: 3,
            width_stride: 1,
            height: 1,
            height_stride: 3,
        },
        color_hint: None,
    };
    let view = flat.as_view::<Luma<i32>>().unwrap();
    assert_eq!(view.get_pixel(2, 0), Luma([-3]));
}
