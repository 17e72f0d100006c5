use image::{DynamicImage, GenericImageView, ImageFormat, RgbImage};
use moosicbox::clippier::{manifest_features, read_manifest};
use moosicbox::image::{resize_outcome, try_resize_image, Encoded, Encoding, ResizeError, WebpOutcome};
use moosicbox::models::Cursor;

const PACKAGE: &str = r#"
[package]
name = "demo"

[features]
zeta = []
alpha = ["zeta"]
mid = []
"#;

#[test]
fn read_manifest_reads_package_and_sorted_features() {
    let m = read_manifest(PACKAGE).expect("manifest");
    assert_eq!(m.package_name.as_deref(), Some("demo"));
    assert_eq!(m.workspace_members, None);
    assert_eq!(
        m.feature_keys,
        Some(vec!["alpha".to_string(), "mid".to_string(), "zeta".to_string()])
    );
}

#[test]
fn read_manifest_reads_workspace_members() {
    let m = read_manifest("[workspace]\nmembers = [\"a\", \"b/c\"]\n").expect("manifest");
    assert_eq!(m.workspace_members, Some(vec!["a".to_string(), "b/c".to_string()]));
    assert_eq!(m.package_name, None);
    assert_eq!(m.feature_keys, None);
    let odd = read_manifest("[workspace]\nmembers = [\"a\", 3]\n").expect("manifest");
    assert_eq!(odd.workspace_members, None);
}

#[test]
fn read_manifest_refuses_bad_toml() {
    assert!(read_manifest("[package\nname = ").is_err());
}

#[test]
fn manifest_features_picks_a_window() {
    let m = read_manifest(PACKAGE).expect("manifest");
    assert_eq!(manifest_features(&m, Some(1), Some(1)), Some(vec!["mid".to_string()]));
    assert_eq!(manifest_features(&m, None, None).map(|v| v.len()), Some(3));
    assert_eq!(manifest_features(&m, Some(3), None), Some(vec![]));
    assert_eq!(manifest_features(&m, Some(4), None), None);
    let bare = read_manifest("[package]\nname = \"x\"\n").expect("manifest");
    assert_eq!(manifest_features(&bare, Some(9), None), Some(vec![]));
}

fn jpeg_bytes(img: DynamicImage) -> Vec<u8> {
    let mut out = std::io::Cursor::new(Vec::new());
    img.write_to(&mut out, ImageFormat::Jpeg).expect("encode");
    out.into_inner()
}

#[test]
fn try_resize_image_scales_to_jpeg() {
    let data = jpeg_bytes(DynamicImage::ImageRgb8(RgbImage::new(40, 20)));
    let out = try_resize_image(&data, "cover.jpg", 10, 10, Encoding::Jpeg, 80)
        .expect("ok")
        .expect("bytes");
    let img = image::load_from_memory(&out).expect("decodes");
    assert_eq!(img.dimensions(), (10, 5));
}

#[test]
fn try_resize_image_writes_jpeg_header_of_scaled_size() {
    let data = jpeg_bytes(DynamicImage::ImageRgb8(RgbImage::new(40, 20)));
    let out = try_resize_image(&data, "cover.jpeg", 10, 10, Encoding::Jpeg, 80)
        .expect("ok")
        .expect("bytes");
    assert_eq!(&out[0..4], &[0xFF, 0xD8, 0xFF, 0xE0]);
    assert_eq!(&out[20..22], &[0xFF, 0xC0]);
    assert_eq!(u16::from_be_bytes([out[25], out[26]]), 5);
    assert_eq!(u16::from_be_bytes([out[27], out[28]]), 10);
    assert_eq!(&out[39..41], &[0xFF, 0xDB]);
    assert_eq!(&out[out.len() - 2..], &[0xFF, 0xD9]);
}

#[test]
fn try_resize_image_writes_quality_table() {
    let data = jpeg_bytes(DynamicImage::ImageRgb8(RgbImage::new(16, 16)));
    let at = |quality: u8| {
        try_resize_image(&data, "a.jpg", 8, 8, Encoding::Jpeg, quality)
            .expect("ok")
            .expect("bytes")[44]
    };
    // 16 * (200 - 2q) / 100, rounded: 3 at 90, 8 at 75, 16 at 50; 5000 / 10 = 500 gives 80.
    assert_eq!(at(90), 3);
    assert_eq!(at(75), 8);
    assert_eq!(at(50), 16);
    assert_eq!(at(10), 80);
    assert_eq!(at(100), 1);
}

#[test]
fn try_resize_image_scales_to_webp() {
    let data = jpeg_bytes(DynamicImage::ImageRgb8(RgbImage::new(40, 20)));
    let out = try_resize_image(&data, "cover.jpg", 20, 20, Encoding::Webp, 80)
        .expect("ok")
        .expect("bytes");
    assert_eq!(&out[0..4], b"RIFF");
    assert_eq!(u32::from_le_bytes([out[4], out[5], out[6], out[7]]) as usize, out.len() - 8);
    assert_eq!(&out[8..12], b"WEBP");
}

#[test]
fn try_resize_image_gives_none_for_grey_webp() {
    let grey = DynamicImage::ImageLuma8(image::GrayImage::new(8, 8));
    let data = jpeg_bytes(grey);
    assert!(try_resize_image(&data, "grey.jpg", 4, 4, Encoding::Webp, 50).expect("ok").is_none());
}

#[test]
fn try_resize_image_refuses_webp_quality_above_hundred() {
    let data = jpeg_bytes(DynamicImage::ImageRgb8(RgbImage::new(8, 8)));
    let r = try_resize_image(&data, "a.jpg", 4, 4, Encoding::Webp, 101);
    assert!(matches!(r, Err(ResizeError::WebpEncoding)));
}

#[test]
fn try_resize_image_refuses_garbage() {
    let r = try_resize_image(b"not an image", "a.jpg", 4, 4, Encoding::Jpeg, 50);
    assert!(matches!(r, Err(ResizeError::Image(_))));
    let r = try_resize_image(b"", "a.jpg", 4, 4, Encoding::Webp, 50);
    assert!(matches!(r, Err(ResizeError::Image(_))));
}

#[test]
fn try_resize_image_refuses_unknown_extension() {
    let data = jpeg_bytes(DynamicImage::ImageRgb8(RgbImage::new(8, 8)));
    assert!(matches!(
        try_resize_image(&data, "cover", 4, 4, Encoding::Jpeg, 50),
        Err(ResizeError::Image(_))
    ));
    assert!(matches!(
        try_resize_image(&data, "cover.txt", 4, 4, Encoding::Jpeg, 50),
        Err(ResizeError::Image(_))
    ));
}

#[test]
fn try_resize_image_refuses_jpeg_wider_than_format_allows() {
    let data = jpeg_bytes(DynamicImage::ImageRgb8(RgbImage::new(2000, 1)));
    // Scaling 2000 x 1 to fit 70000 x 70000 gives 70000 x 35, wider than
    // the 65535 that a JPEG frame header holds.
    assert!(matches!(
        try_resize_image(&data, "a.jpg", 70000, 70000, Encoding::Jpeg, 50),
        Err(ResizeError::Image(_))
    ));
}

#[test]
fn resize_outcome_hands_results_on() {
    let bytes = vec![1u8, 2, 3];
    assert_eq!(
        resize_outcome(Encoded::Jpeg(Ok(bytes.clone()))).ok(),
        Some(Some(bytes.clone()))
    );
    assert_eq!(
        resize_outcome(Encoded::Webp(Ok(WebpOutcome::Encoded(bytes.clone())))).ok(),
        Some(Some(bytes))
    );
    assert_eq!(resize_outcome(Encoded::Webp(Ok(WebpOutcome::Unsupported))).ok(), Some(None));
    assert!(matches!(
        resize_outcome(Encoded::Webp(Ok(WebpOutcome::Failed))),
        Err(ResizeError::WebpEncoding)
    ));
}

#[test]
fn cursor_names_are_distinct() {
    let all = [
        Cursor::Auto, Cursor::Pointer, Cursor::Text, Cursor::Crosshair, Cursor::Move,
        Cursor::NotAllowed, Cursor::NoDrop, Cursor::Grab, Cursor::Grabbing, Cursor::AllScroll,
        Cursor::ColResize, Cursor::RowResize, Cursor::NResize, Cursor::EResize, Cursor::SResize,
        Cursor::WResize, Cursor::NeResize, Cursor::NwResize, Cursor::SeResize, Cursor::SwResize,
        Cursor::EwResize, Cursor::NsResize, Cursor::NeswResize, Cursor::ZoomIn, Cursor::ZoomOut,
    ];
    let mut names: Vec<&str> = all.iter().map(|c| c.as_str()).collect();
    names.sort();
    names.dedup();
    assert_eq!(names.len(), all.len());
}
