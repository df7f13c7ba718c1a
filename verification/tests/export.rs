use skia_canvas::dpi::ImageFormat;
use skia_canvas::export::{
    first_empty_page, pixel_buffer_len, plan_export, raster_format, same_text, ExportError, ExportPlan,
};

#[test]
fn raster_formats_by_name() {
    assert_eq!(raster_format("jpg"), Some(ImageFormat::Jpeg));
    assert_eq!(raster_format("jpeg"), Some(ImageFormat::Jpeg));
    assert_eq!(raster_format("png"), Some(ImageFormat::Png));
    assert_eq!(raster_format("webp"), Some(ImageFormat::Webp));
    assert_eq!(raster_format("raw"), Some(ImageFormat::Bmp));
    assert_eq!(raster_format("pdf"), None);
    assert_eq!(raster_format("PNG"), None);
    assert_eq!(raster_format(""), None);
}

#[test]
fn plans_for_known_formats() {
    assert_eq!(plan_export("jpg", true, false).unwrap(), ExportPlan::Encode(ImageFormat::Jpeg));
    assert_eq!(plan_export("jpeg", true, false).unwrap(), ExportPlan::Encode(ImageFormat::Jpeg));
    assert_eq!(plan_export("png", true, false).unwrap(), ExportPlan::Encode(ImageFormat::Png));
    assert_eq!(plan_export("webp", true, false).unwrap(), ExportPlan::Encode(ImageFormat::Webp));
    assert_eq!(plan_export("raw", true, false).unwrap(), ExportPlan::RawPixels);
    assert_eq!(plan_export("pdf", true, false).unwrap(), ExportPlan::Pdf);
    assert_eq!(plan_export("svg", true, false).unwrap(), ExportPlan::Svg);
}

#[test]
fn unsupported_format_is_refused_with_its_name() {
    match plan_export("gif", true, false) {
        Err(ExportError::UnsupportedFormat(f)) => assert_eq!(f, "gif"),
        other => panic!("unexpected {:?}", other),
    }
    let err = plan_export("tiff", true, false).unwrap_err();
    assert_eq!(err.message(), "Unsupported file format tiff");
}

#[test]
fn missing_picture_comes_before_empty_bounds() {
    assert!(matches!(plan_export("png", false, true), Err(ExportError::NoPicture)));
    assert!(matches!(plan_export("gif", false, false), Err(ExportError::NoPicture)));
}

#[test]
fn empty_bounds_come_before_the_format() {
    assert!(matches!(plan_export("png", true, true), Err(ExportError::EmptyImage)));
    assert!(matches!(plan_export("gif", true, true), Err(ExportError::EmptyImage)));
}

#[test]
fn error_messages() {
    assert_eq!(ExportError::NoBitmap.message(), "Could not render bitmap");
    assert_eq!(ExportError::NoPicture.message(), "Could not generate an image");
    assert_eq!(
        ExportError::EmptyImage.message(),
        "Width and height must be non-zero to generate an image"
    );
    assert_eq!(
        ExportError::EmptyPdfPage.message(),
        "Width and height must be non-zero to generate a PDF page"
    );
    assert_eq!(ExportError::EncodeFailed("webp".to_string()).message(), "Could not encode as webp");
    assert_eq!(
        ExportError::UnsupportedFormat("bmp".to_string()).message(),
        "Unsupported file format bmp"
    );
}

#[test]
fn same_text_compares_characters() {
    assert!(same_text("", ""));
    assert!(same_text("svg", "svg"));
    assert!(!same_text("svg", "sv"));
    assert!(!same_text("svg", "svG"));
    assert!(same_text("héllo", "héllo"));
}

#[test]
fn pixel_buffer_sizes() {
    assert_eq!(pixel_buffer_len(4, 10, 20), 800);
    assert_eq!(pixel_buffer_len(8, 0, 500), 0);
    assert_eq!(pixel_buffer_len(1, 3, 7), 21);
}

#[test]
fn first_empty_page_of_a_pdf() {
    assert_eq!(first_empty_page(&vec![]), None);
    assert_eq!(first_empty_page(&vec![false, false]), None);
    assert_eq!(first_empty_page(&vec![false, true, true]), Some(1));
    assert_eq!(first_empty_page(&vec![true]), Some(0));
}
