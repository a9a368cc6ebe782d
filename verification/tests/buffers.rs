use std::rc::Rc;
use std::sync::Arc;

use flat_image::{
    AsSamples, AsSamplesMut, ColorType, Error, FlatSamples, GrayAlphaImage, ImageBuffer,
    ImageError, Luma, LumaA, NormalForm, Pixel, Primitive, Rgb, Rgba, SampleLayout,
};

fn row_major(channels: u8, width: u32, height: u32) -> SampleLayout {
    SampleLayout {
        channels,
        channel_stride: 1,
        width,
        width_stride: channels as usize,
        height,
        height_stride: channels as usize * width as usize,
    }
}

fn planar(channels: u8, width: u32, height: u32) -> SampleLayout {
    SampleLayout {
        channels,
        channel_stride: width as usize * height as usize,
        width,
        width_stride: 1,
        height,
        height_stride: width as usize,
    }
}

#[test]
fn references_to_a_buffer() {
    let mut flat = FlatSamples {
        samples: vec![1u16, 2, 3, 4, 5],
        format: row_major(2, 2, 1),
        color_hint: Some(ColorType::GrayA(16)),
    };
    let by_ref = flat.as_ref();
    assert_eq!(by_ref.samples, [1, 2, 3, 4, 5]);
    assert_eq!(by_ref.format, flat.format);
    assert_eq!(by_ref.color_hint, Some(ColorType::GrayA(16)));

    let by_mut = flat.as_mut();
    assert_eq!(by_mut.color_hint, Some(ColorType::GrayA(16)));
    by_mut.samples[4] = 50;
    assert_eq!(flat.as_slice(), [1, 2, 3, 4, 50]);

    flat.as_mut_slice()[0] = 10;
    let owned = flat.as_ref().to_vec();
    assert_eq!(owned.samples, vec![10, 2, 3, 4, 50]);
    assert_eq!(owned.format, flat.format);
    assert_eq!(owned.color_hint, flat.color_hint);

    let clone = flat.clone();
    assert_eq!(clone.samples, flat.samples);
    assert_eq!(clone.format, flat.format);
}

#[test]
fn containers_of_samples() {
    let mut array = [1u8, 2, 3];
    array.as_samples_mut()[0] = 9;
    assert_eq!(array.as_samples(), [9, 2, 3]);
    let mut vec = vec![1u8, 2];
    vec.as_samples_mut()[1] = 7;
    assert_eq!(vec.as_samples(), [1, 7]);
    let mut slice: &mut [u8] = &mut vec;
    AsSamplesMut::as_samples_mut(&mut slice)[0] = 8;
    assert_eq!(AsSamples::as_samples(&slice), [8, 7]);
    assert_eq!(AsSamples::as_samples(&&vec), [8, 7]);
    let mut boxed: Box<[u8]> = vec.into_boxed_slice();
    boxed.as_samples_mut()[1] = 6;
    assert_eq!(AsSamples::as_samples(&boxed), [8, 6]);
    let shared: Rc<[u8]> = Rc::from(&boxed[..]);
    assert_eq!(AsSamples::as_samples(&shared), [8, 6]);
    let shared: Arc<Vec<u8>> = Arc::new(boxed.into_vec());
    assert_eq!(AsSamples::as_samples(&shared), [8, 6]);
}

#[test]
fn images_in_shared_buffers() {
    let samples: Arc<[u8]> = Arc::from(vec![1u8, 2, 3, 4, 5, 6]);
    let first = FlatSamples {
        samples: Arc::clone(&samples),
        format: row_major(3, 2, 1),
        color_hint: None,
    };
    let second = FlatSamples { samples, format: planar(3, 2, 1), color_hint: None };
    assert_eq!(first.as_view::<Rgb<u8>>().unwrap().get_pixel(1, 0).channels(), [4, 5, 6]);
    assert_eq!(first.image_slice(), Some(&[1u8, 2, 3, 4, 5, 6][..]));
    assert_eq!(second.as_view::<Rgb<u8>>().unwrap().get_pixel(0, 0).channels(), [1, 3, 5]);

    let shared = FlatSamples {
        samples: Rc::new(vec![7u8, 8]),
        format: row_major(1, 2, 1),
        color_hint: None,
    };
    assert_eq!(shared.as_view::<Luma<u8>>().unwrap().get_pixel(1, 0).channels(), [8]);
}

#[test]
fn image_slices() {
    let mut flat =
        FlatSamples { samples: vec![1u8, 2, 3, 4, 5, 6], format: row_major(2, 2, 1), color_hint: None };
    assert_eq!(flat.image_slice(), Some(&[1u8, 2, 3, 4][..]));
    flat.image_mut_slice().unwrap()[3] = 40;
    assert_eq!(flat.samples, [1, 2, 3, 40, 5, 6]);

    flat.format.width = 4;
    assert_eq!(flat.image_slice(), None);
    assert!(flat.image_mut_slice().is_none());

    flat.format.width_stride = usize::MAX;
    assert_eq!(flat.min_length(), None);
    assert_eq!(flat.image_slice(), None);
    assert!(flat.image_mut_slice().is_none());

    flat.format.height = 0;
    assert_eq!(flat.image_slice(), Some(&[][..]));
}

#[test]
fn single_samples() {
    let mut flat =
        FlatSamples { samples: vec![1u8, 2, 3, 4, 5, 6], format: planar(2, 3, 1), color_hint: None };
    assert_eq!(*flat.index_ref((1, 2, 0)), 6);
    assert_eq!(*flat.index_ref((0, 2, 0)), 3);
    *flat.index_mut((1, 0, 0)) = 44;
    assert_eq!(flat.samples, [1, 2, 3, 44, 5, 6]);
}

#[test]
fn conversion_keeps_samples() {
    let samples: Vec<u8> = (0..20).collect();
    let flat = FlatSamples { samples: samples.clone(), format: row_major(2, 4, 2), color_hint: None };
    let image: GrayAlphaImage = flat.try_into_buffer().unwrap();
    assert_eq!(image.dimensions(), (4, 2));
    assert_eq!(image.clone().into_raw(), samples);
    assert_eq!(image.into_raw(), samples);
}

#[test]
fn conversion_errors_return_the_buffer() {
    let flat = FlatSamples { samples: vec![0u8; 16], format: planar(2, 4, 2), color_hint: None };
    let (error, flat) = flat.try_into_buffer::<LumaA<u8>>().unwrap_err();
    assert_eq!(error, Error::NormalFormRequired(NormalForm::RowMajorPacked));
    assert_eq!(flat.samples, [0; 16]);
    assert_eq!(flat.format, planar(2, 4, 2));

    let flat = FlatSamples { samples: vec![0u8; 16], format: row_major(2, 4, 2), color_hint: None };
    let (error, mut flat) = flat.try_into_buffer::<Rgb<u8>>().unwrap_err();
    assert_eq!(error, Error::WrongColor(ColorType::RGB(8)));
    assert_eq!(flat.samples, [0; 16]);

    flat.samples.truncate(15);
    let (error, flat) = flat.try_into_buffer::<LumaA<u8>>().unwrap_err();
    assert_eq!(error, Error::TooLarge);
    assert_eq!(flat.samples, [0; 15]);
}

#[test]
fn image_buffers_from_containers() {
    assert!(ImageBuffer::<Rgb<u8>, Vec<u8>>::from_raw(2, 3, vec![0; 18]).is_some());
    assert!(ImageBuffer::<Rgb<u8>, Vec<u8>>::from_raw(2, 3, vec![0; 19]).is_some());
    assert!(ImageBuffer::<Rgb<u8>, Vec<u8>>::from_raw(2, 3, vec![0; 17]).is_none());
    assert!(ImageBuffer::<Rgb<u8>, Vec<u8>>::from_raw(0, u32::MAX, vec![]).is_some());
    let huge = ImageBuffer::<Rgba<u8>, Vec<u8>>::from_raw(u32::MAX, u32::MAX, vec![0; 4]);
    assert!(huge.is_none());
}

#[test]
fn image_errors() {
    assert!(matches!(ImageError::from(Error::TooLarge), ImageError::DimensionError));
    assert!(matches!(
        ImageError::from(Error::WrongColor(ColorType::RGB(16))),
        ImageError::UnsupportedColor(ColorType::RGB(16))
    ));
    for form in [
        NormalForm::Unaliased,
        NormalForm::PixelPacked,
        NormalForm::ImagePacked,
        NormalForm::RowMajorPacked,
        NormalForm::ColumnMajorPacked,
    ] {
        match ImageError::from(Error::NormalFormRequired(form)) {
            ImageError::FormatError(message) => assert_eq!(
                message,
                format!("Required sample buffer in normal form {:?}", form)
            ),
            _ => unreachable!(),
        }
    }
}

#[test]
fn primitives() {
    assert_eq!((u8::blank(), u8::bits()), (0, 8));
    assert_eq!((u16::blank(), u16::bits()), (0, 16));
    assert_eq!((u32::blank(), u32::bits()), (0, 32));
    assert_eq!((u64::blank(), u64::bits()), (0, 64));
    assert_eq!((usize::blank(), usize::bits()), (0, usize::BITS as u8));
    assert_eq!((i8::blank(), i8::bits()), (0, 8));
    assert_eq!((i16::blank(), i16::bits()), (0, 16));
    assert_eq!((i32::blank(), i32::bits()), (0, 32));
    assert_eq!((i64::blank(), i64::bits()), (0, 64));
    assert_eq!((isize::blank(), isize::bits()), (0, isize::BITS as u8));
}

#[test]
fn pixels() {
    assert_eq!((Luma::<u8>::channel_count(), Luma::<u8>::color_type()), (1, ColorType::Gray(8)));
    assert_eq!((LumaA::<u16>::channel_count(), LumaA::<u16>::color_type()), (2, ColorType::GrayA(16)));
    assert_eq!((Rgb::<i32>::channel_count(), Rgb::<i32>::color_type()), (3, ColorType::RGB(32)));
    assert_eq!((Rgba::<u64>::channel_count(), Rgba::<u64>::color_type()), (4, ColorType::RGBA(64)));
    assert_eq!(Luma::from_slice(&[5u8]), Luma([5]));
    assert_eq!(LumaA::from_slice(&[5u8, 6]), LumaA([5, 6]));
    assert_eq!(Rgb::from_slice(&[5u8, 6, 7]), Rgb([5, 6, 7]));
    assert_eq!(Rgba::from_slice(&[5u8, 6, 7, 8]), Rgba([5, 6, 7, 8]));
    assert_eq!(Rgba([5u8, 6, 7, 8]).channels(), [5, 6, 7, 8]);
    assert_eq!(Rgb([5u8, 6, 7]).channels(), [5, 6, 7]);
    assert_eq!(LumaA([5u8, 6]).channels(), [5, 6]);
    assert_eq!(Luma([5u8]).channels(), [5]);
}
