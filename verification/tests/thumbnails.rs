use toss::thumbnail::{
    encodable, encode_thumbnail, encoded, extension_for_url, hash_path, image_data_url, look_up,
    mime_type, opened, render_thumbnail, renderable, scale_picture, short_hash, size_asked,
    thumbnail_cache_dir, thumbnail_cache_path, thumbnail_data_url, thumbnail_file_name,
    try_image_data_url, try_scale_picture, try_thumbnail_data_url, CacheLookup, ThumbnailError,
    THUMBNAIL_SIZE,
};

fn png(width: u32, height: u32) -> Vec<u8> {
    let picture = image::DynamicImage::ImageRgb8(image::RgbImage::new(width, height));
    let mut buffer = std::io::Cursor::new(Vec::new());
    picture.write_to(&mut buffer, image::ImageFormat::Png).unwrap();
    buffer.into_inner()
}

#[test]
fn hash_is_first_sixteen_hex_digits_of_sha256() {
    assert_eq!(hash_path("abc"), "ba7816bf8f01cfea");
    assert_eq!(hash_path(""), "e3b0c44298fc1c14");
}

#[test]
fn hash_depends_on_the_path() {
    assert_ne!(hash_path("/a/b.jpg"), hash_path("/a/c.jpg"));
    assert_eq!(hash_path("/a/b.jpg"), hash_path("/a/b.jpg"));
    assert_eq!(hash_path("/a/b.jpg").len(), 16);
}

#[test]
fn short_hash_writes_eight_bytes_in_hex() {
    let digest = [0x00u8, 0x0f, 0x10, 0xab, 0xcd, 0xef, 0x7f, 0xff, 0x12, 0x34];
    assert_eq!(short_hash(&digest), "000f10abcdef7fff");
}

#[test]
fn cache_file_is_hash_underscore_size() {
    assert_eq!(thumbnail_file_name("abc", Some(64)), "ba7816bf8f01cfea_64.jpg");
    assert_eq!(thumbnail_file_name("abc", None), "ba7816bf8f01cfea_150.jpg");
    assert_eq!(THUMBNAIL_SIZE, 150);
}

#[test]
fn changed_size_gives_distinct_cache_entry() {
    assert_ne!(thumbnail_file_name("abc", Some(15)), thumbnail_file_name("abc", Some(150)));
    assert_ne!(thumbnail_file_name("abc", Some(1)), thumbnail_file_name("abc", Some(10)));
    assert_eq!(thumbnail_file_name("abc", Some(150)), thumbnail_file_name("abc", None));
}

#[test]
fn cache_paths_lie_under_thumbnails() {
    assert_eq!(thumbnail_cache_dir("/cache/app"), "/cache/app/thumbnails");
    assert_eq!(
        thumbnail_cache_path("/cache/app/thumbnails", "abc", Some(32)),
        "/cache/app/thumbnails/ba7816bf8f01cfea_32.jpg"
    );
}

#[test]
fn thumbnail_url_is_jpeg_in_base64() {
    assert_eq!(thumbnail_data_url(b"hello"), "data:image/jpeg;base64,aGVsbG8=");
    assert_eq!(thumbnail_data_url(b""), "data:image/jpeg;base64,");
}

#[test]
fn same_bytes_give_the_same_url() {
    let bytes = render_thumbnail("x.png", &png(40, 20), 10).unwrap();
    let first = thumbnail_data_url(&bytes);
    let cached = bytes.clone();
    assert_eq!(thumbnail_data_url(&cached), first);
    assert_eq!(try_thumbnail_data_url(&cached), Some(first));
}

#[test]
fn data_url_picks_media_type_by_extension() {
    assert_eq!(image_data_url("/a/b.jpg", b"hi"), "data:image/jpeg;base64,aGk=");
    assert_eq!(image_data_url("/a/b.JPEG", b"hi"), "data:image/jpeg;base64,aGk=");
    assert_eq!(image_data_url("/a/b.png", b"hi"), "data:image/png;base64,aGk=");
    assert_eq!(image_data_url("/a/b.gif", b"hi"), "data:image/gif;base64,aGk=");
    assert_eq!(image_data_url("/a/b.webp", b"hi"), "data:image/webp;base64,aGk=");
    assert_eq!(image_data_url("/a/b.bmp", b"hi"), "data:image/bmp;base64,aGk=");
    assert_eq!(try_image_data_url("/a/b.bmp", b"hi"), Some("data:image/bmp;base64,aGk=".to_string()));
}

#[test]
fn data_url_falls_back_to_png() {
    assert_eq!(image_data_url("/a/b.tiff", b"hi"), "data:image/png;base64,aGk=");
    assert_eq!(image_data_url("/a/b", b"hi"), "data:image/png;base64,aGk=");
    assert_eq!(image_data_url("/", b"hi"), "data:image/png;base64,aGk=");
}

#[test]
fn mime_types_by_lower_case_extension() {
    assert_eq!(mime_type("jpg"), "image/jpeg");
    assert_eq!(mime_type("jpeg"), "image/jpeg");
    assert_eq!(mime_type("png"), "image/png");
    assert_eq!(mime_type("gif"), "image/gif");
    assert_eq!(mime_type("webp"), "image/webp");
    assert_eq!(mime_type("bmp"), "image/bmp");
    assert_eq!(mime_type("JPG"), "image/png");
    assert_eq!(mime_type(""), "image/png");
}

#[test]
fn extension_for_url_defaults_to_png() {
    assert_eq!(extension_for_url(Some("a.GIF".to_string())), "GIF");
    assert_eq!(extension_for_url(Some("a".to_string())), "png");
    assert_eq!(extension_for_url(None), "png");
}

#[test]
fn sizes_that_can_be_rendered_and_encoded() {
    assert!(renderable(0));
    assert!(renderable(150));
    assert!(renderable(8192));
    assert!(!renderable(u32::MAX));
    assert!(encodable(0));
    assert!(encodable(1 << 20));
    assert!(!encodable(usize::MAX));
}

#[test]
fn thumbnail_fits_the_square_and_keeps_the_aspect() {
    let bytes = render_thumbnail("/pics/wide.png", &png(400, 200), 150).unwrap();
    assert_eq!(&bytes[..3], &[0xff, 0xd8, 0xff]);
    let small = image::load_from_memory(&bytes).unwrap();
    assert_eq!((small.width(), small.height()), (150, 75));
    let tall = render_thumbnail("/pics/tall.png", &png(100, 300), 150).unwrap();
    let small = image::load_from_memory(&tall).unwrap();
    assert_eq!((small.width(), small.height()), (50, 150));
}

#[test]
fn rendering_is_repeatable() {
    let source = png(64, 48);
    assert_eq!(
        render_thumbnail("a.png", &source, 32).unwrap(),
        render_thumbnail("a.png", &source, 32).unwrap()
    );
}

#[test]
fn unknown_extension_cannot_be_opened() {
    let err = render_thumbnail("/pics/file.xyz", &png(4, 4), 150).unwrap_err();
    assert!(matches!(err, ThumbnailError::Open(_)));
    assert!(err.message().starts_with("Failed to open image: "));
    let err = render_thumbnail("/pics/file", &png(4, 4), 150).unwrap_err();
    assert!(matches!(err, ThumbnailError::Open(_)));
}

#[test]
fn corrupt_picture_cannot_be_opened() {
    let err = render_thumbnail("/pics/file.png", b"not a picture", 150).unwrap_err();
    assert!(matches!(err, ThumbnailError::Open(_)));
}

#[test]
fn format_follows_the_extension_not_the_content() {
    let err = render_thumbnail("/pics/file.jpg", &png(4, 4), 150).unwrap_err();
    assert!(matches!(err, ThumbnailError::Open(_)));
}

#[test]
fn error_messages_carry_the_cause() {
    assert_eq!(ThumbnailError::Open("boom".to_string()).message(), "Failed to open image: boom");
    assert_eq!(
        ThumbnailError::Encode("boom".to_string()).message(),
        "Failed to encode thumbnail: boom"
    );
}

#[test]
fn scaled_picture_is_no_larger_than_the_size() {
    let wide = scale_picture("/pics/wide.png", &png(400, 200), 150).ok().unwrap();
    assert_eq!((wide.width(), wide.height()), (150, 75));
    let tall = scale_picture("/pics/tall.png", &png(100, 300), 150).ok().unwrap();
    assert_eq!((tall.width(), tall.height()), (50, 150));
    let grown = scale_picture("/pics/small.png", &png(4, 2), 150).ok().unwrap();
    assert_eq!((grown.width(), grown.height()), (150, 75));
    let same = scale_picture("/pics/same.png", &png(32, 32), 32).ok().unwrap();
    assert_eq!((same.width(), same.height()), (32, 32));
}

#[test]
fn thumbnail_of_size_nought_is_one_pixel() {
    let dot = scale_picture("/pics/wide.png", &png(400, 200), 0).ok().unwrap();
    assert_eq!((dot.width(), dot.height()), (1, 1));
    let bytes = encode_thumbnail(&dot).unwrap();
    let back = image::load_from_memory(&bytes).unwrap();
    assert_eq!((back.width(), back.height()), (1, 1));
}

#[test]
fn thin_picture_keeps_at_least_one_pixel() {
    let thin = scale_picture("/pics/thin.png", &png(1000, 1), 10).ok().unwrap();
    assert_eq!((thin.width(), thin.height()), (10, 1));
}

#[test]
fn encoded_thumbnail_has_the_size_of_the_scaled_picture() {
    let scaled = scale_picture("/pics/wide.png", &png(90, 30), 30).ok().unwrap();
    let bytes = encode_thumbnail(&scaled).unwrap();
    let back = image::load_from_memory(&bytes).unwrap();
    assert_eq!((back.width(), back.height()), (scaled.width(), scaled.height()));
    assert_eq!(bytes, render_thumbnail("/pics/wide.png", &png(90, 30), 30).unwrap());
}

#[test]
fn extension_tells_the_format_without_regard_to_case() {
    assert!(scale_picture("/pics/A.PNG", &png(4, 4), 2).is_ok());
    assert!(scale_picture("/pics/a.PnG", &png(4, 4), 2).is_ok());
    assert!(scale_picture("/pics/a.apng", &png(4, 4), 2).is_ok());
}

#[test]
fn path_that_names_no_format_cannot_be_opened() {
    for path in ["/pics/file", "/pics/file.", "/pics/.png", "/pics/file.xyz", "/pics/png", "/", ""] {
        let scaled = scale_picture(path, &png(4, 4), 2);
        assert!(matches!(scaled, Err(ThumbnailError::Open(_))));
        let rendered = render_thumbnail(path, &png(4, 4), 2);
        assert!(matches!(rendered, Err(ThumbnailError::Open(_))));
    }
}

#[test]
fn known_format_with_other_content_cannot_be_opened() {
    for path in ["/pics/a.jfif", "/pics/a.gif", "/pics/a.webp", "/pics/a.bmp", "/pics/a.tiff", "/pics/a.qoi"] {
        assert!(matches!(scale_picture(path, &png(4, 4), 2), Err(ThumbnailError::Open(_))));
    }
}

#[test]
fn attempts_become_outcomes() {
    assert_eq!(opened(Ok::<u32, String>(7)), Ok(7));
    assert_eq!(
        opened(Err::<u32, String>("boom".to_string())),
        Err(ThumbnailError::Open("boom".to_string()))
    );
    assert_eq!(encoded(Ok(vec![1, 2, 3])), Ok(vec![1, 2, 3]));
    assert_eq!(
        encoded(Err("boom".to_string())),
        Err(ThumbnailError::Encode("boom".to_string()))
    );
}

#[test]
fn hash_is_made_of_lower_case_hex_digits() {
    for path in ["", "abc", "/photos/IMG 001.JPG", "/pics/\u{e9}t\u{e9}.png"] {
        let id = hash_path(path);
        assert_eq!(id.chars().count(), 16);
        assert!(id.chars().all(|c| matches!(c, '0'..='9' | 'a'..='f')));
    }
    assert_eq!(short_hash(&[0xAB; 8]), "abababababababab");
}

#[test]
fn picture_that_cannot_be_opened_is_reported_before_the_size() {
    let broken = try_scale_picture("/pics/a.png", b"not a picture", u32::MAX);
    assert!(matches!(broken, Err(ThumbnailError::Open(_))));
    let unnamed = try_scale_picture("/pics/a", &png(4, 4), u32::MAX);
    assert!(matches!(unnamed, Err(ThumbnailError::Open(_))));
}

#[test]
fn size_that_cannot_be_rendered_scales_nothing() {
    assert!(matches!(try_scale_picture("/pics/a.png", &png(4, 4), u32::MAX), Ok(None)));
    let small = try_scale_picture("/pics/a.png", &png(40, 20), 10).ok().flatten().unwrap();
    assert_eq!((small.width(), small.height()), (10, 5));
}

#[test]
fn try_scale_agrees_with_scale() {
    let source = png(64, 48);
    let one = scale_picture("/pics/a.png", &source, 16).ok().unwrap();
    let other = try_scale_picture("/pics/a.png", &source, 16).ok().flatten().unwrap();
    assert_eq!(encode_thumbnail(&one), encode_thumbnail(&other));
}

#[test]
fn cached_thumbnail_is_served_as_it_is() {
    assert_eq!(
        look_up(Some(b"hello")),
        CacheLookup::Serve("data:image/jpeg;base64,aGVsbG8=".to_string())
    );
    assert_eq!(look_up(Some(b"")), CacheLookup::Serve("data:image/jpeg;base64,".to_string()));
    assert_eq!(look_up(None), CacheLookup::Render);
}

#[test]
fn cache_hit_serves_what_the_first_rendering_served() {
    let bytes = render_thumbnail("/pics/a.png", &png(40, 20), 10).unwrap();
    let first = thumbnail_data_url(&bytes);
    assert_eq!(look_up(Some(&bytes)), CacheLookup::Serve(first));
}

#[test]
fn size_asked_defaults_to_150() {
    assert_eq!(size_asked(None), 150);
    assert_eq!(size_asked(Some(0)), 0);
    assert_eq!(size_asked(Some(64)), 64);
}
