use std::io::Cursor;

use image::{DynamicImage, ImageFormat};
use mpgs::server::avatar::{
    avatar_cleanup, avatar_directory, avatar_failure_answer, avatar_file_name,
    avatar_storage_key, avatar_url, check_stored_avatar, default_avatar_svg,
    process_avatar_image, resolve_avatar_image_format, sniff_avatar_image_format,
    validate_avatar_dimensions, xml_escape, AvatarDirectory, AvatarFailure, AvatarFormat,
};

fn png(width: u32, height: u32) -> Vec<u8> {
    let source =
        image::RgbaImage::from_fn(width, height, |x, y| image::Rgba([x as u8, y as u8, 180, 255]));
    let mut png = Cursor::new(Vec::new());
    DynamicImage::ImageRgba8(source).write_to(&mut png, ImageFormat::Png).unwrap();
    png.into_inner()
}

#[test]
fn avatar_processing_crops_to_square_webp_and_rejects_mismatched_media() {
    let png = png(320, 160);

    let encoded = process_avatar_image(&png, Some("image/png")).unwrap();
    let avatar = image::load_from_memory_with_format(&encoded, ImageFormat::WebP).unwrap();
    assert_eq!((avatar.width(), avatar.height()), (128, 128));

    let via_octet =
        process_avatar_image(&png, Some("application/octet-stream")).expect("octet-stream");
    assert_eq!(via_octet.len(), encoded.len());
    let via_empty = process_avatar_image(&png, None).expect("missing content-type");
    assert_eq!(via_empty.len(), encoded.len());
    let via_mislabeled =
        process_avatar_image(&png, Some("image/jpeg")).expect("mislabeled jpeg header");
    assert_eq!(via_mislabeled.len(), encoded.len());

    assert!(process_avatar_image(b"<svg/>", Some("image/svg+xml")).is_err());
    assert!(process_avatar_image(b"<svg/>", Some("application/octet-stream")).is_err());
}

#[test]
fn avatar_dimensions_are_rejected_before_decode_allocation() {
    assert!(validate_avatar_dimensions(4_000, 4_000).is_ok());
    assert!(validate_avatar_dimensions(4_001, 4_000).is_err());
    assert!(validate_avatar_dimensions(16_001, 1).is_err());
    assert!(validate_avatar_dimensions(0, 128).is_err());
}

#[test]
fn the_middle_of_a_picture_is_kept() {
    // Left and right thirds are red, the middle third is green.
    let source = image::RgbaImage::from_fn(300, 100, |x, _| {
        if (100..200).contains(&x) {
            image::Rgba([0, 255, 0, 255])
        } else {
            image::Rgba([255, 0, 0, 255])
        }
    });
    let mut png = Cursor::new(Vec::new());
    DynamicImage::ImageRgba8(source).write_to(&mut png, ImageFormat::Png).unwrap();
    let encoded = process_avatar_image(&png.into_inner(), None).unwrap();
    let avatar =
        image::load_from_memory_with_format(&encoded, ImageFormat::WebP).unwrap().to_rgba8();
    for (x, y) in [(0, 0), (127, 0), (64, 64), (0, 127), (127, 127)] {
        let pixel = avatar.get_pixel(x, y);
        assert!(pixel[1] > 200 && pixel[0] < 50, "{pixel:?}");
    }
}

#[test]
fn pictures_that_cannot_be_read_are_refused() {
    let broken: Vec<u8> = png(10, 10)[..40].to_vec();
    assert!(process_avatar_image(&broken, Some("image/png")).is_err());
    assert!(process_avatar_image(&png(16_001, 1), Some("image/png")).is_err());
    assert!(process_avatar_image(&[], None).is_err());
}

#[test]
fn formats_are_told_by_their_first_bytes() {
    assert_eq!(sniff_avatar_image_format(&[0xff, 0xd8, 0xff, 0xe0]), Some(AvatarFormat::Jpeg));
    assert_eq!(sniff_avatar_image_format(b"\x89PNG\r\n\x1a\n...."), Some(AvatarFormat::Png));
    assert_eq!(sniff_avatar_image_format(b"RIFF\0\0\0\0WEBPVP8 "), Some(AvatarFormat::WebP));
    assert_eq!(sniff_avatar_image_format(b"GIF89a"), None);
    assert_eq!(
        resolve_avatar_image_format(b"\x89PNG\r\n\x1a\n....", Some("Image/JPEG; q=1")),
        Ok(AvatarFormat::Jpeg)
    );
    assert_eq!(
        resolve_avatar_image_format(b"\x89PNG\r\n\x1a\n....", Some("application/octet-stream")),
        Ok(AvatarFormat::Png)
    );
    assert!(resolve_avatar_image_format(b"GIF89a", Some("image/gif")).is_err());
}

#[test]
fn stored_avatars_have_safe_names() {
    let key = avatar_storage_key("user", "hash");
    let name = avatar_file_name(&key).unwrap();
    assert!(!name.contains('/'));
    assert!(avatar_file_name("../secret").is_err());
    assert!(avatar_file_name("").is_err());
    assert!(check_stored_avatar(262_144).is_ok());
    assert!(check_stored_avatar(262_145).is_err());
    assert_ne!(avatar_url("p", 1), avatar_url("p", 2));
}

#[test]
fn avatars_are_kept_where_they_were_configured() {
    assert!(matches!(
        avatar_directory(Some("/srv/avatars"), "data.db"),
        AvatarDirectory::Configured(path) if path == "/srv/avatars"
    ));
    assert!(matches!(avatar_directory(None, ":memory:"), AvatarDirectory::Temporary));
    assert!(matches!(avatar_directory(None, "data.db"), AvatarDirectory::BesideDatabase));
}

#[test]
fn a_file_that_is_no_longer_used_is_removed() {
    assert_eq!(avatar_cleanup(Some("old"), "new", true).as_deref(), Some("old"));
    assert_eq!(avatar_cleanup(Some("new"), "new", true), None);
    assert_eq!(avatar_cleanup(Some("old"), "new", false).as_deref(), Some("new"));
    assert_eq!(avatar_cleanup(Some("new"), "new", false), None);
    assert_eq!(avatar_cleanup(None, "new", true), None);
}

#[test]
fn a_failed_upload_is_answered_by_its_cause() {
    assert_eq!(
        avatar_failure_answer(&AvatarFailure::Rejected("no picture".to_owned())).message,
        "no picture"
    );
    assert!(avatar_failure_answer(&AvatarFailure::Busy).status >= 400);
    assert!(avatar_failure_answer(&AvatarFailure::Crashed).status >= 400);
    assert!(avatar_failure_answer(&AvatarFailure::NotStored).status >= 500);
}

#[test]
fn names_are_escaped_in_a_drawing() {
    assert_eq!(xml_escape("<a & \"b\">"), "&lt;a &amp; &quot;b&quot;&gt;");
    let drawing = default_avatar_svg("<b>", "id");
    assert!(!drawing.contains("<b>"));
    assert!(drawing.starts_with("<svg"));
    assert_eq!(drawing, default_avatar_svg("<b>", "id"));
}
