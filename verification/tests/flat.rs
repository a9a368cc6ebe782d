use flat_image::{FlatSamples, LumaA, NormalForm, Rgb, SampleLayout};

#[test]
fn aliasing_view() {
    let buffer = FlatSamples {
        samples: &[42],
        format: SampleLayout {
            channels: 3,
            channel_stride: 0,
            width: 100,
            width_stride: 0,
            height: 100,
            height_stride: 0,
        },
        color_hint: None,
    };

    let view = buffer.as_view::<Rgb<usize>>().expect("This is a valid view");
    let (width, height) = view.dimensions();
    let pixel_count = (0..height)
        .flat_map(|y| (0..width).map(move |x| (x, y)))
        .map(|(x, y)| view.get_pixel(x, y))
        .inspect(|pixel| assert!(*pixel == Rgb([42, 42, 42])))
        .count();
    assert_eq!(pixel_count, 100 * 100);
}

#[test]
fn mutable_view() {
    let mut buffer = FlatSamples {
        samples: [0; 18],
        format: SampleLayout {
            channels: 2,
            channel_stride: 1,
            width: 3,
            width_stride: 2,
            height: 3,
            height_stride: 6,
        },
        color_hint: None,
    };

    {
        let mut view = buffer
            .as_view_mut::<LumaA<usize>>()
            .expect("This should be a valid mutable buffer");
        let (width, height) = view.dimensions();
        let pixel_count = (0..height)
            .flat_map(|y| (0..width).map(move |x| (x, y)))
            .enumerate()
            .map(|(idx, (x, y))| view.put_pixel(x, y, LumaA([2 * idx, 2 * idx + 1])))
            .count();
        assert_eq!(pixel_count, 9);
    }

    buffer
        .samples
        .iter()
        .enumerate()
        .for_each(|(idx, sample)| assert_eq!(idx, *sample));
}

#[test]
fn normal_forms() {
    assert!(FlatSamples {
        samples: [0u8; 0],
        format: SampleLayout {
            channels: 2,
            channel_stride: 1,
            width: 3,
            width_stride: 9,
            height: 3,
            height_stride: 28,
        },
        color_hint: None,
    }
    .is_normal(NormalForm::PixelPacked));

    assert!(FlatSamples {
        samples: [0u8; 0],
        format: SampleLayout {
            channels: 2,
            channel_stride: 8,
            width: 4,
            width_stride: 1,
            height: 2,
            height_stride: 4,
        },
        color_hint: None,
    }
    .is_normal(NormalForm::ImagePacked));

    assert!(FlatSamples {
        samples: [0u8; 0],
        format: SampleLayout {
            channels: 2,
            channel_stride: 1,
            width: 4,
            width_stride: 2,
            height: 2,
            height_stride: 8,
        },
        color_hint: None,
    }
    .is_normal(NormalForm::RowMajorPacked));

    assert!(FlatSamples {
        samples: [0u8; 0],
        format: SampleLayout {
            channels: 2,
            channel_stride: 1,
            width: 4,
            width_stride: 4,
            height: 2,
            height_stride: 2,
        },
        color_hint: None,
    }
    .is_normal(NormalForm::ColumnMajorPacked));
}

#[test]
fn image_buffer_conversion() {
    let buffer = FlatSamples {
        samples: vec![0u8; 16],
        format: SampleLayout {
            channels: 2,
            channel_stride: 1,
            width: 4,
            width_stride: 2,
            height: 2,
            height_stride: 8,
        },
        color_hint: None,
    };

    let _: flat_image::GrayAlphaImage = buffer.try_into_buffer().unwrap_or_else(|(error, _)| {
        panic!("Expected buffer to be convertible but {:?}", error)
    });
}
