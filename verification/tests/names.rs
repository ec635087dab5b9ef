use toss::model::default_output_directory_mode;
use toss::paths::{
    get_folder_name, has_image_extension, is_image_file, sanitize_name, split_extension,
    strip_forbidden, supported_extension, trim,
};
use toss::text::{decimal, same_text};

#[test]
fn default_mode_is_per_folder() {
    assert_eq!(default_output_directory_mode(), "per-folder");
}

#[test]
fn folder_name_is_last_component() {
    assert_eq!(get_folder_name("/photos/vacation"), "vacation");
    assert_eq!(get_folder_name("/photos/vacation/"), "vacation");
    assert_eq!(get_folder_name("relative/Trip"), "Trip");
}

#[test]
fn folder_name_of_pathless_input_is_unnamed() {
    assert_eq!(get_folder_name("/"), "unnamed");
    assert_eq!(get_folder_name(""), "unnamed");
    assert_eq!(get_folder_name("/photos/.."), "unnamed");
}

#[test]
fn image_files_are_told_by_extension() {
    assert!(is_image_file("/a/b/photo.jpg"));
    assert!(is_image_file("/a/b/photo.jpeg"));
    assert!(is_image_file("/a/b/photo.png"));
    assert!(is_image_file("/a/b/photo.webp"));
    assert!(is_image_file("/a/b/photo.gif"));
    assert!(is_image_file("/a/b/photo.bmp"));
    assert!(!is_image_file("/a/b/notes.txt"));
    assert!(!is_image_file("/a/b/photo.tiff"));
    assert!(!is_image_file("/a/b/photo"));
}

#[test]
fn image_extension_ignores_case() {
    assert!(is_image_file("/a/b/PHOTO.JPG"));
    assert!(is_image_file("photo.PnG"));
    assert!(has_image_extension("x.WebP"));
}

#[test]
fn hidden_file_without_extension_is_no_image() {
    assert!(!is_image_file("/a/b/.png"));
    assert!(!has_image_extension(".jpg"));
    assert!(has_image_extension(".hidden.jpg"));
}

#[test]
fn only_the_last_extension_counts() {
    assert!(has_image_extension("archive.tar.png"));
    assert!(!has_image_extension("photo.png.txt"));
    assert!(!has_image_extension("photo.png."));
}

#[test]
fn supported_extensions_are_lower_case() {
    assert!(supported_extension("jpg"));
    assert!(!supported_extension("JPG"));
    assert!(!supported_extension(""));
}

#[test]
fn split_extension_follows_the_last_dot() {
    assert_eq!(split_extension("photo.jpg"), ("photo".to_string(), Some("jpg".to_string())));
    assert_eq!(split_extension("a.b.c"), ("a.b".to_string(), Some("c".to_string())));
    assert_eq!(split_extension("photo"), ("photo".to_string(), None));
    assert_eq!(split_extension(".hidden"), (".hidden".to_string(), None));
    assert_eq!(split_extension("photo."), ("photo".to_string(), Some("".to_string())));
    assert_eq!(split_extension(".."), ("..".to_string(), None));
    assert_eq!(split_extension(""), ("".to_string(), None));
}

#[test]
fn split_extension_counts_characters_not_bytes() {
    assert_eq!(split_extension("été.jpg"), ("été".to_string(), Some("jpg".to_string())));
}

#[test]
fn sanitize_drops_hostile_characters() {
    assert_eq!(sanitize_name("a/b\\c:d*e?f\"g<h>i|j\0k"), "abcdefghijk");
    assert_eq!(sanitize_name("My Project"), "My Project");
}

#[test]
fn sanitize_trims_after_dropping() {
    assert_eq!(sanitize_name("  holiday  "), "holiday");
    assert_eq!(sanitize_name("/ holiday /"), "holiday");
    assert_eq!(sanitize_name("\t a b \n"), "a b");
}

#[test]
fn sanitize_of_only_hostile_characters_is_empty() {
    assert_eq!(sanitize_name("///"), "");
    assert_eq!(sanitize_name(" : "), "");
    assert_eq!(sanitize_name(""), "");
    assert_eq!(sanitize_name("   "), "");
}

#[test]
fn strip_forbidden_keeps_whitespace() {
    assert_eq!(strip_forbidden(" a/b "), " ab ");
}

#[test]
fn trim_drops_unicode_whitespace() {
    assert_eq!(trim("\u{a0}x\u{2003}"), "x");
    assert_eq!(trim("x y"), "x y");
}

#[test]
fn decimal_writes_numbers() {
    assert_eq!(decimal(0), "0");
    assert_eq!(decimal(7), "7");
    assert_eq!(decimal(10), "10");
    assert_eq!(decimal(1000), "1000");
    assert_eq!(decimal(4294967295), "4294967295");
}

#[test]
fn same_text_compares_contents() {
    assert!(same_text("abc", "abc"));
    assert!(!same_text("abc", "abd"));
    assert!(!same_text("abc", "ab"));
    assert!(same_text("", ""));
}

#[test]
fn every_white_space_character_is_trimmed() {
    let white = [
        '\u{9}', '\u{a}', '\u{b}', '\u{c}', '\u{d}', ' ', '\u{85}', '\u{a0}', '\u{1680}',
        '\u{2000}', '\u{2001}', '\u{2002}', '\u{2003}', '\u{2004}', '\u{2005}', '\u{2006}',
        '\u{2007}', '\u{2008}', '\u{2009}', '\u{200a}', '\u{2028}', '\u{2029}', '\u{202f}',
        '\u{205f}', '\u{3000}',
    ];
    for c in white {
        assert_eq!(trim(&format!("{}x{}", c, c)), "x");
        assert_eq!(sanitize_name(&format!("{}", c)), "");
    }
}

#[test]
fn characters_next_to_white_space_are_kept() {
    let kept = [
        '\u{8}', '\u{e}', '\u{1f}', '!', '\u{84}', '\u{86}', '\u{9f}', '\u{a1}', '\u{180e}',
        '\u{1fff}', '\u{200b}', '\u{200c}', '\u{2027}', '\u{202a}', '\u{202e}', '\u{2030}',
        '\u{205e}', '\u{2060}', '\u{2fff}', '\u{3001}', '\u{feff}',
    ];
    for c in kept {
        let text = format!("{}x{}", c, c);
        assert_eq!(trim(&text), text);
    }
}

#[test]
fn cleaned_names_are_fixed_character_by_character() {
    assert_eq!(sanitize_name("\u{3000}My: Trip\u{2003}"), "My Trip");
    assert_eq!(sanitize_name(" a \u{200b} "), "a \u{200b}");
}
