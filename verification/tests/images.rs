use image::{DynamicImage, GenericImageView, GrayImage, Rgb32FImage, RgbImage, RgbaImage};
use ppm_steganography::decoder::Decoder;
use ppm_steganography::encoder::Encoder;
use ppm_steganography::error::SteganoError;
use ppm_steganography::raster::{
    image_from_vec_rgb, image_to_vec_rgb, require_pixmap, require_readable, PnmKind,
};

#[test]
fn samples_are_rgb_in_row_major_order() {
    let raw: Vec<u8> = (1..=18).collect();
    let image = DynamicImage::ImageRgb8(RgbImage::from_raw(3, 2, raw.clone()).unwrap());
    assert_eq!(image_to_vec_rgb(&image).unwrap(), raw);
}

#[test]
fn samples_leave_alpha_out() {
    let raw: Vec<u8> = vec![1, 2, 3, 40, 4, 5, 6, 50, 7, 8, 9, 60, 10, 11, 12, 70];
    let image = DynamicImage::ImageRgba8(RgbaImage::from_raw(2, 2, raw).unwrap());
    assert_eq!(
        image_to_vec_rgb(&image).unwrap(),
        vec![1, 2, 3, 4, 5, 6, 7, 8, 9, 10, 11, 12]
    );
}

#[test]
fn samples_of_a_grey_image_repeat_the_grey() {
    let image = DynamicImage::ImageLuma8(GrayImage::from_raw(2, 1, vec![9, 200]).unwrap());
    assert_eq!(image_to_vec_rgb(&image).unwrap(), vec![9, 9, 9, 200, 200, 200]);
}

#[test]
fn samples_of_an_empty_image_are_none() {
    let image = DynamicImage::ImageRgb8(RgbImage::new(0, 0));
    assert_eq!(image_to_vec_rgb(&image).unwrap(), Vec::<u8>::new());
    let image = DynamicImage::ImageRgb8(RgbImage::new(0, 5));
    assert_eq!(image_to_vec_rgb(&image).unwrap(), Vec::<u8>::new());
    let image = DynamicImage::ImageRgb8(RgbImage::new(5, 0));
    assert_eq!(image_to_vec_rgb(&image).unwrap(), Vec::<u8>::new());
}

#[test]
fn samples_follow_width_before_height() {
    // one row of four pixels and four rows of one pixel give the same samples
    let raw: Vec<u8> = (0..12).collect();
    let wide = DynamicImage::ImageRgb8(RgbImage::from_raw(4, 1, raw.clone()).unwrap());
    let tall = DynamicImage::ImageRgb8(RgbImage::from_raw(1, 4, raw.clone()).unwrap());
    assert_eq!(image_to_vec_rgb(&wide).unwrap(), raw);
    assert_eq!(image_to_vec_rgb(&tall).unwrap(), raw);
}

#[test]
fn image_from_samples_regroups_triples() {
    let raw: Vec<u8> = (1..=18).collect();
    let image = image_from_vec_rgb(raw, 3, 2).unwrap();
    assert_eq!(image.width(), 3);
    assert_eq!(image.height(), 2);
    assert_eq!(image.get_pixel(0, 0).0, [1, 2, 3, 255]);
    assert_eq!(image.get_pixel(2, 0).0, [7, 8, 9, 255]);
    assert_eq!(image.get_pixel(0, 1).0, [10, 11, 12, 255]);
    assert_eq!(image.get_pixel(2, 1).0, [16, 17, 18, 255]);
    assert!(matches!(image, DynamicImage::ImageRgb8(_)));
}

#[test]
fn image_from_too_few_samples_is_none() {
    assert!(image_from_vec_rgb(vec![0; 17], 3, 2).is_none());
    assert!(image_from_vec_rgb(Vec::new(), 1, 1).is_none());
}

#[test]
fn image_from_more_samples_ignores_the_rest() {
    let raw: Vec<u8> = (1..=20).collect();
    let image = image_from_vec_rgb(raw, 3, 2).unwrap();
    assert_eq!(image_to_vec_rgb(&image).unwrap(), (1..=18).collect::<Vec<u8>>());
}

#[test]
fn image_from_samples_of_a_huge_size_is_none() {
    assert!(image_from_vec_rgb(vec![0; 12], u32::MAX, u32::MAX).is_none());
}

#[test]
fn samples_survive_the_way_through_an_image() {
    let raw: Vec<u8> = (0..60u8).map(|i| i.wrapping_mul(29)).collect();
    let image = image_from_vec_rgb(raw.clone(), 5, 4).unwrap();
    assert_eq!(image_to_vec_rgb(&image).unwrap(), raw);
}

#[test]
fn image_survives_the_way_through_samples() {
    let raw: Vec<u8> = (0..24u8).map(|i| i.wrapping_mul(31).wrapping_add(3)).collect();
    let buffer = RgbImage::from_raw(2, 4, raw).unwrap();
    let image = DynamicImage::ImageRgb8(buffer.clone());
    let back = image_from_vec_rgb(image_to_vec_rgb(&image).unwrap(), image.width(), image.height());
    assert_eq!(back.unwrap().into_rgb8(), buffer);
}

#[test]
fn only_pixmaps_are_admitted() {
    assert!(require_pixmap(PnmKind::Pixmap).is_ok());
    assert!(matches!(
        require_pixmap(PnmKind::Bitmap),
        Err(SteganoError::BadFormat)
    ));
    assert!(matches!(
        require_pixmap(PnmKind::Graymap),
        Err(SteganoError::BadFormat)
    ));
    assert!(matches!(
        require_pixmap(PnmKind::ArbitraryMap),
        Err(SteganoError::BadFormat)
    ));
}

#[test]
fn errors_have_their_texts() {
    assert_eq!(SteganoError::MessageTooLong.message(), "Message is too long");
    assert_eq!(
        SteganoError::BadFormat.message(),
        "Incompatible format(Only .ppm image)"
    );
    assert_eq!(
        SteganoError::ImpossibleToParse.message(),
        "Impossible to parse the hidden message"
    );
}

#[test]
fn file_errors_are_carried() {
    let inner = std::io::Error::new(std::io::ErrorKind::NotFound, "no such picture");
    let error = SteganoError::from(inner);
    assert!(matches!(error, SteganoError::FileError(_)));
    assert_eq!(error.message(), "no such picture");
}

#[test]
fn image_errors_are_carried() {
    let inner = image::error::ImageError::IoError(std::io::Error::new(
        std::io::ErrorKind::UnexpectedEof,
        "cut short",
    ));
    let expected = format!("{}", inner);
    let error = SteganoError::from(inner);
    assert!(matches!(error, SteganoError::ImageError(_)));
    assert_eq!(error.message(), expected);
}

fn float_picture(first: f32) -> DynamicImage {
    let raw = vec![first, 0.0, 1.0, 0.5, 0.25, 0.75];
    DynamicImage::ImageRgb32F(Rgb32FImage::from_raw(2, 1, raw).unwrap())
}

#[test]
fn samples_of_sixteen_bits_are_scaled_to_eight() {
    let raw: Vec<u16> = vec![0, 65535, 257, 128, 129, 32768];
    let buffer = image::ImageBuffer::<image::Rgb<u16>, Vec<u16>>::from_raw(2, 1, raw).unwrap();
    let image = DynamicImage::ImageRgb16(buffer);
    assert_eq!(
        image_to_vec_rgb(&image).unwrap(),
        vec![0, 255, 1, 0, 1, 128]
    );
}

#[test]
fn integer_images_are_admitted() {
    assert!(require_readable(&DynamicImage::new_luma8(1, 1)).is_ok());
    assert!(require_readable(&DynamicImage::new_luma_a8(1, 1)).is_ok());
    assert!(require_readable(&DynamicImage::new_rgb8(1, 1)).is_ok());
    assert!(require_readable(&DynamicImage::new_rgba8(1, 1)).is_ok());
    assert!(require_readable(&DynamicImage::new_luma16(1, 1)).is_ok());
    assert!(require_readable(&DynamicImage::new_luma_a16(1, 1)).is_ok());
    assert!(require_readable(&DynamicImage::new_rgb16(1, 1)).is_ok());
    assert!(require_readable(&DynamicImage::new_rgba16(1, 1)).is_ok());
}

#[test]
fn float_images_are_refused() {
    assert!(matches!(
        require_readable(&DynamicImage::new_rgb32f(1, 1)),
        Err(SteganoError::BadFormat)
    ));
    assert!(matches!(
        require_readable(&DynamicImage::new_rgba32f(1, 1)),
        Err(SteganoError::BadFormat)
    ));
}

#[test]
fn float_images_have_no_samples() {
    assert!(matches!(
        image_to_vec_rgb(&float_picture(0.5)),
        Err(SteganoError::BadFormat)
    ));
}

#[test]
fn a_float_image_with_a_sample_that_is_no_number_is_refused() {
    assert!(matches!(
        image_to_vec_rgb(&float_picture(f32::NAN)),
        Err(SteganoError::BadFormat)
    ));
    assert!(matches!(
        Encoder::new(float_picture(f32::NAN)),
        Err(SteganoError::BadFormat)
    ));
    assert!(matches!(
        Decoder::new(float_picture(f32::NAN)),
        Err(SteganoError::BadFormat)
    ));
}

#[test]
fn encoder_and_decoder_refuse_float_images() {
    assert!(matches!(
        Encoder::new(DynamicImage::new_rgba32f(3, 3)),
        Err(SteganoError::BadFormat)
    ));
    assert!(matches!(
        Decoder::new(DynamicImage::new_rgb32f(3, 3)),
        Err(SteganoError::BadFormat)
    ));
}

#[test]
fn encoder_and_decoder_take_integer_images() {
    assert!(Encoder::new(DynamicImage::new_rgb16(3, 3)).is_ok());
    assert!(Decoder::new(DynamicImage::new_luma8(3, 3)).is_ok());
    assert!(Encoder::new(DynamicImage::new_rgba8(0, 0)).is_ok());
}

#[test]
fn built_images_are_eight_bit_rgb() {
    let image = image_from_vec_rgb(vec![0; 12], 2, 2).unwrap();
    assert_eq!(image.color(), image::ColorType::Rgb8);
    assert!(require_readable(&image).is_ok());
}
