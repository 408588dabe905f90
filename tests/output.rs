use raytrace::error::{EncodeError, PipelineError};
use raytrace::output::{encode_as, encode_image, parse_format, prepare_write, target_path, OutputFormat};

#[test]
fn writes_to_png() {
    let img_filename = "static/single_pixel";
    let img_format = "png";
    let img_pixels: Vec<u8> = vec![100, 10, 200];
    let img_size: (usize, usize) = (1, 1);
    let result = prepare_write(img_filename, img_format, &img_pixels, img_size);

    assert!(result.is_ok());
}

#[test]
fn writes_to_webp() {
    let img_filename = "static/wrong_format";
    let img_format = "webp";
    let img_pixels: Vec<u8> = vec![100, 10, 200];
    let img_size: (usize, usize) = (1, 1);
    let result = prepare_write(img_filename, img_format, &img_pixels, img_size);

    assert!(result.is_ok());
}

#[test]
fn png_of_one_pixel_decodes_with_its_size() {
    let (path, bytes) = prepare_write("static/single_pixel", "png", &vec![100, 10, 200], (1, 1)).unwrap();
    assert_eq!(path, "static/single_pixel.png");
    assert_ne!(bytes, vec![100, 10, 200]);
    let decoded = image::load_from_memory(&bytes).unwrap().to_rgb8();
    assert_eq!(decoded.dimensions(), (1, 1));
    assert_eq!(decoded.into_raw(), vec![100, 10, 200]);
}

#[test]
fn unknown_format_is_rejected() {
    let result = prepare_write("static/nothing", "xyz", &vec![100, 10, 200], (1, 1));
    assert!(matches!(result, Err(PipelineError::UnsupportedFormat)));
    assert!(parse_format("xyz").is_none());
    assert!(parse_format("PNG").is_none());
    assert!(parse_format("").is_none());
}

#[test]
fn every_listed_format_parses() {
    let tags = ["webp", "jpeg", "png", "ico", "pnm", "bmp", "exr", "tiff"];
    for tag in tags {
        let format = parse_format(tag).unwrap();
        assert_eq!(format.tag(), tag);
    }
    assert_eq!(parse_format("png"), Some(OutputFormat::Png));
}

#[test]
fn path_joins_base_and_tag() {
    assert_eq!(target_path("static/picture", OutputFormat::Tiff), "static/picture.tiff");
    assert_eq!(target_path("", OutputFormat::Bmp), ".bmp");
}

#[test]
fn zero_sized_display_is_rejected() {
    let result = encode_image("png", &Vec::new(), (0, 1));
    assert!(matches!(result, Err(PipelineError::InvalidDimensions)));
    let result = encode_image("png", &Vec::new(), (1usize << 33, 1));
    assert!(matches!(result, Err(PipelineError::InvalidDimensions)));
}

#[test]
fn short_buffer_is_rejected() {
    let result = encode_image("png", &vec![1, 2, 3, 4, 5], (2, 1));
    assert!(matches!(result, Err(PipelineError::EncodeFailure(EncodeError::BufferLength))));
    let result = encode_as(OutputFormat::Bmp, &vec![1, 2, 3, 4, 5, 6, 7], (2, 1));
    assert!(matches!(result, Err(PipelineError::EncodeFailure(EncodeError::BufferLength))));
}

#[test]
fn format_is_checked_before_size() {
    let result = encode_image("gif", &Vec::new(), (0, 0));
    assert!(matches!(result, Err(PipelineError::UnsupportedFormat)));
}

#[test]
fn codec_refusal_is_an_encode_failure() {
    let pixels = vec![0u8; 3 * 300 * 1];
    let result = encode_image("ico", &pixels, (300, 1));
    assert!(matches!(result, Err(PipelineError::EncodeFailure(EncodeError::Codec(_)))));
}

#[test]
fn bmp_round_trips() {
    let pixels: Vec<u8> = (0..18).collect();
    let bytes = encode_image("bmp", &pixels, (3, 2)).unwrap();
    assert_eq!(&bytes[0..2], b"BM");
    let decoded = image::load_from_memory(&bytes).unwrap().to_rgb8();
    assert_eq!(decoded.dimensions(), (3, 2));
    assert_eq!(decoded.into_raw(), pixels);
}
