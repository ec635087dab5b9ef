//! Thumbnails and data URLs: the short hash that identifies a path, the
//! name of the cache file for a path and a size, the rendition of a
//! picture, and the text form in which pictures are handed out.
use vstd::prelude::*;
use vstd::string::*;
use vstd::utf8::encode_utf8;
use crate::paths::{
    extension_of, file_name_of, joined, lowercase, lowercase_of, path_component, path_join,
    split_extension,
};
use crate::text::{
    append_left_cancel, append_right_cancel, decimal, decimal_digits, decimal_digits_injective,
    digit_char, opt_text, same_text,
};

verus! {

/// The edge, in pixels, of the square a thumbnail fits into when none is
/// asked for.
pub const THUMBNAIL_SIZE: u32 = 150;

/// The SHA-256 digest of a sequence of bytes.
pub uninterp spec fn sha256(data: Seq<u8>) -> Seq<u8>;

/// The base64 text of a sequence of bytes, in the standard alphabet with
/// padding.
pub uninterp spec fn base64_standard(data: Seq<u8>) -> Seq<char>;

/// The format that `ImageFormat::from_path` of the image crate reads off a
/// path which names one.
pub uninterp spec fn format_of(path: Seq<char>) -> image::ImageFormat;

/// The picture that `image::load_from_memory_with_format` decodes from
/// bytes in a format; none where it fails.
pub uninterp spec fn decoded(data: Seq<u8>, format: image::ImageFormat) -> Option<
    image::DynamicImage,
>;

/// The picture that `DynamicImage::resize` makes of a picture with the
/// triangle filter, for a square of the given edge.
pub uninterp spec fn resized(picture: image::DynamicImage, size: u32) -> image::DynamicImage;

/// The bytes that `DynamicImage::write_to` writes for a picture in the
/// JPEG format; none where it fails.
pub uninterp spec fn jpeg_of(picture: image::DynamicImage) -> Option<Seq<u8>>;

#[verifier::external_type_specification]
#[verifier::external_body]
pub struct ExDynamicImage(image::DynamicImage);

#[verifier::external_type_specification]
#[verifier::external_body]
pub struct ExImageFormat(image::ImageFormat);

#[verifier::external_type_specification]
#[verifier::external_body]
pub struct ExImageError(image::ImageError);

/// The character for a hexadecimal digit, in lower case.
pub open spec fn hex_digit(n: int) -> char {
    if n < 10 {
        digit_char(n as nat)
    } else if n == 10 {
        'a'
    } else if n == 11 {
        'b'
    } else if n == 12 {
        'c'
    } else if n == 13 {
        'd'
    } else if n == 14 {
        'e'
    } else {
        'f'
    }
}

/// Bytes in hexadecimal: two digits for each, the high one first.
pub open spec fn hex_of(data: Seq<u8>) -> Seq<char> {
    Seq::new(
        2 * data.len(),
        |i: int|
            if i % 2 == 0 {
                hex_digit(data[i / 2] as int / 16)
            } else {
                hex_digit(data[i / 2] as int % 16)
            },
    )
}

/// Trusted: calls `Digest::digest` of the sha2 crate for `Sha256`. The
/// contract gives the result its name, `sha256`, and states its length, the
/// 32 bytes of a SHA-256 digest.
#[verifier::external_body]
fn sha256_digest(data: &[u8]) -> (digest: Vec<u8>)
    ensures
        digest@ == sha256(data@),
        digest@.len() == 32,
{
    <sha2::Sha256 as sha2::Digest>::digest(data).to_vec()
}

/// Trusted: calls `hex::encode`, which writes every byte as two lower-case
/// hexadecimal digits, the high one first.
#[verifier::external_body]
fn hex_encode(data: &[u8]) -> (text: String)
    ensures
        text@ == hex_of(data@),
{
    hex::encode(data)
}

/// Trusted: calls `Engine::encode` of the base64 crate on its `STANDARD`
/// engine. The contract only gives the result its name, `base64_standard`.
/// The call panics where the length of the text does not fit; such input is
/// left out.
#[verifier::external_body]
fn base64_encode(data: &[u8]) -> (text: String)
    requires
        4 * (data@.len() / 3 + 1) <= isize::MAX,
    ensures
        text@ == base64_standard(data@),
{
    base64::Engine::encode(&base64::engine::general_purpose::STANDARD, data)
}

/// A character with the letters `A` to `Z` turned into `a` to `z`.
pub open spec fn ascii_lower_char(c: char) -> char {
    if 0x41 <= c as u32 <= 0x5a {
        ((c as u32) + 32) as char
    } else {
        c
    }
}

/// A string with the letters `A` to `Z` turned into `a` to `z`.
pub open spec fn ascii_lower(s: Seq<char>) -> Seq<char> {
    Seq::new(s.len(), |i: int| ascii_lower_char(s[i]))
}

/// The extensions, in lower case, by which a picture's format is told.
pub open spec fn is_format_extension(ext: Seq<char>) -> bool {
    ||| ext == "avif"@
    ||| ext == "jpg"@
    ||| ext == "jpeg"@
    ||| ext == "jfif"@
    ||| ext == "png"@
    ||| ext == "apng"@
    ||| ext == "gif"@
    ||| ext == "webp"@
    ||| ext == "tif"@
    ||| ext == "tiff"@
    ||| ext == "tga"@
    ||| ext == "dds"@
    ||| ext == "bmp"@
    ||| ext == "ico"@
    ||| ext == "hdr"@
    ||| ext == "exr"@
    ||| ext == "pbm"@
    ||| ext == "pam"@
    ||| ext == "ppm"@
    ||| ext == "pgm"@
    ||| ext == "pnm"@
    ||| ext == "ff"@
    ||| ext == "qoi"@
}

/// Whether a path names the format of its picture: its final component
/// has an extension which, with `A` to `Z` in lower case, is one by which
/// a format is told.
pub open spec fn names_format(path: Seq<char>) -> bool {
    match file_name_of(path) {
        Some(name) => match extension_of(name) {
            Some(ext) => is_format_extension(ascii_lower(ext)),
            None => false,
        },
        None => false,
    }
}

/// The edge of the square that a thumbnail of the given size fits into: the
/// size, and one pixel where the size is nought.
pub open spec fn thumbnail_edge(size: u32) -> u32 {
    if size == 0 {
        1
    } else {
        size
    }
}

/// Trusted: calls `ImageFormat::from_path` of the image crate. The contract
/// states when a format comes back: `from_path` takes the extension of the
/// path, which std documents as what follows the last dot of the final
/// component, turns `A` to `Z` into lower case, and knows the extensions
/// listed in `is_format_extension` and no others. The format itself gets
/// its name, `format_of`. Nothing is stated of which error comes back.
#[verifier::external_body]
fn image_format_of(path: &str) -> (format: Result<image::ImageFormat, image::ImageError>)
    ensures
        format is Ok <==> names_format(path@),
        format matches Ok(f) ==> f == format_of(path@),
{
    image::ImageFormat::from_path(path)
}

/// Trusted: calls `image::load_from_memory_with_format`, which decodes a
/// picture of the given format from bytes in memory. The contract only
/// gives the outcome its name, `decoded`: the picture, or none where the
/// call fails. Nothing is stated of which error comes back.
#[verifier::external_body]
fn decode_image(data: &[u8], format: image::ImageFormat) -> (picture: Result<
    image::DynamicImage,
    image::ImageError,
>)
    ensures
        match picture {
            Ok(p) => decoded(data@, format) == Some(p),
            Err(_) => decoded(data@, format) is None,
        },
{
    image::load_from_memory_with_format(data, format)
}

/// A picture scaled down to the size of a thumbnail, not yet written out,
/// with its width and height in pixels.
pub struct ScaledPicture {
    picture: image::DynamicImage,
    width: u32,
    height: u32,
}

impl ScaledPicture {
    /// The picture itself.
    pub closed spec fn shown(&self) -> image::DynamicImage {
        self.picture
    }

    /// The width of the picture in pixels.
    pub closed spec fn pixels_wide(&self) -> u32 {
        self.width
    }

    /// The height of the picture in pixels.
    pub closed spec fn pixels_high(&self) -> u32 {
        self.height
    }

    /// The width of the picture in pixels.
    pub fn width(&self) -> (width: u32)
        ensures
            width == self.pixels_wide(),
    {
        self.width
    }

    /// The height of the picture in pixels.
    pub fn height(&self) -> (height: u32)
        ensures
            height == self.pixels_high(),
    {
        self.height
    }
}

/// Trusted: calls `DynamicImage::resize` with the triangle filter, which
/// scales a picture to the largest size of its aspect ratio that fits into
/// a square of edge `size`, and reads the width and height of what comes
/// back with `DynamicImage::width` and `height`. The contract gives the new
/// picture its name, `resized`, and states that it is no wider and no
/// higher than `size`, or than one pixel where `size` is nought: `resize`
/// computes each side as the old side times the smaller of the two ratios,
/// rounded, and at least 1. The bound on `size` keeps the number of its
/// bytes within what a buffer can hold.
#[verifier::external_body]
fn fit_within(picture: &image::DynamicImage, size: u32) -> (fitted: ScaledPicture)
    requires
        can_render(size),
    ensures
        fitted.picture == resized(*picture, size),
        fitted.width <= thumbnail_edge(size),
        fitted.height <= thumbnail_edge(size),
{
    let picture = picture.resize(size, size, image::imageops::FilterType::Triangle);
    ScaledPicture { width: picture.width(), height: picture.height(), picture }
}

/// Trusted: calls `DynamicImage::write_to` for the JPEG format on a buffer
/// in memory. The contract only gives the outcome its name, `jpeg_of`: the
/// bytes that were written, or none where the call fails. Nothing is
/// stated of which error comes back.
#[verifier::external_body]
fn encode_jpeg(picture: &image::DynamicImage) -> (bytes: Result<Vec<u8>, image::ImageError>)
    ensures
        match bytes {
            Ok(b) => jpeg_of(*picture) == Some(b@),
            Err(_) => jpeg_of(*picture) is None,
        },
{
    let mut buffer = std::io::Cursor::new(Vec::new());
    picture.write_to(&mut buffer, image::ImageFormat::Jpeg).map(|_| buffer.into_inner())
}

/// Trusted: the text of an error of the image crate, from its `Display`.
/// Nothing is stated of the result.
#[verifier::external_body]
fn image_error_text(error: &image::ImageError) -> String {
    error.to_string()
}

/// The short hash of a path: the first 16 hexadecimal digits of the
/// SHA-256 digest of its bytes.
pub open spec fn path_hash(path: Seq<char>) -> Seq<char> {
    hex_of(sha256(encode_utf8(path))).take(16)
}

/// Whether a character is a hexadecimal digit in lower case.
pub open spec fn is_lower_hex(c: char) -> bool {
    ||| c == '0'
    ||| c == '1'
    ||| c == '2'
    ||| c == '3'
    ||| c == '4'
    ||| c == '5'
    ||| c == '6'
    ||| c == '7'
    ||| c == '8'
    ||| c == '9'
    ||| c == 'a'
    ||| c == 'b'
    ||| c == 'c'
    ||| c == 'd'
    ||| c == 'e'
    ||| c == 'f'
}

/// Bytes in hexadecimal are hexadecimal digits in lower case.
pub proof fn hex_of_is_lower_hex(data: Seq<u8>)
    ensures
        hex_of(data).len() == 2 * data.len(),
        forall|i: int| 0 <= i < hex_of(data).len() ==> is_lower_hex(#[trigger] hex_of(data)[i]),
{
    assert forall|i: int| 0 <= i < hex_of(data).len() implies is_lower_hex(
        #[trigger] hex_of(data)[i],
    ) by {
        let byte = data[i / 2] as int;
        assert(0 <= byte / 16 < 16);
        assert(0 <= byte % 16 < 16);
    }
}

/// The first 16 hexadecimal digits of a digest.
pub fn short_hash(digest: &[u8]) -> (id: String)
    requires
        digest@.len() >= 8,
    ensures
        id@ == hex_of(digest@).take(16),
        id@.len() == 16,
        forall|i: int| 0 <= i < 16 ==> is_lower_hex(#[trigger] id@[i]),
{
    let text = hex_encode(digest);
    proof {
        hex_of_is_lower_hex(digest@);
        assert forall|i: int| 0 <= i < 16 implies is_lower_hex(
            #[trigger] hex_of(digest@).take(16)[i],
        ) by {
            assert(hex_of(digest@).take(16)[i] == hex_of(digest@)[i]);
        }
    }
    String::from_str(text.as_str().substring_char(0, 16))
}

/// The short hash of a path, which identifies a picture in lists and in
/// the thumbnail cache: 16 hexadecimal digits in lower case, the first of
/// the SHA-256 digest of the path's bytes, which has 32 bytes.
pub fn hash_path(path: &str) -> (id: String)
    ensures
        id@ == path_hash(path@),
        id@.len() == 16,
        sha256(encode_utf8(path@)).len() == 32,
        forall|i: int| 0 <= i < 16 ==> is_lower_hex(#[trigger] id@[i]),
{
    let digest = sha256_digest(path.as_bytes());
    short_hash(digest.as_slice())
}

/// The size that a request for a thumbnail means.
pub open spec fn requested_size(size: Option<u32>) -> u32 {
    match size {
        Some(s) => s,
        None => THUMBNAIL_SIZE,
    }
}

/// The size that a request for a thumbnail means: the size asked for, or
/// the default where none is asked for.
pub fn size_asked(size: Option<u32>) -> (asked: u32)
    ensures
        asked == requested_size(size),
{
    match size {
        Some(s) => s,
        None => THUMBNAIL_SIZE,
    }
}

/// The key of a thumbnail in the cache: the short hash of the picture's
/// path, an underscore, and the size.
pub open spec fn thumbnail_key(path: Seq<char>, size: u32) -> Seq<char> {
    path_hash(path) + seq!['_'] + decimal_digits(size as nat)
}

/// The name of the cache file of a thumbnail.
pub open spec fn thumbnail_file(path: Seq<char>, size: u32) -> Seq<char> {
    thumbnail_key(path, size) + ".jpg"@
}

/// The name of the cache file for the thumbnail of the picture at `path`
/// in the given size, or in the default size where none is given.
pub fn thumbnail_file_name(path: &str, size: Option<u32>) -> (name: String)
    ensures
        name@ == thumbnail_file(path@, requested_size(size)),
{
    let size = match size {
        Some(s) => s,
        None => THUMBNAIL_SIZE,
    };
    proof {
        reveal_strlit("_");
        assert("_"@ =~= seq!['_']);
    }
    let mut name = hash_path(path);
    name.append("_");
    name.append(decimal(size).as_str());
    name.append(".jpg");
    name
}

/// The directory of the thumbnail cache under the cache directory of the
/// application.
pub fn thumbnail_cache_dir(app_cache_dir: &str) -> (dir: String)
    ensures
        dir@ == joined(app_cache_dir@, "thumbnails"@),
{
    path_join(app_cache_dir, "thumbnails")
}

/// The path of the cache file for a thumbnail.
pub fn thumbnail_cache_path(cache_dir: &str, path: &str, size: Option<u32>) -> (file: String)
    ensures
        file@ == joined(cache_dir@, thumbnail_file(path@, requested_size(size))),
{
    let name = thumbnail_file_name(path, size);
    path_join(cache_dir, name.as_str())
}

/// A changed size gives a distinct cache entry: the cache files of one
/// picture in two sizes have different names.
pub proof fn sizes_have_distinct_cache_files(path: Seq<char>, a: u32, b: u32)
    requires
        a != b,
    ensures
        thumbnail_file(path, a) != thumbnail_file(path, b),
        thumbnail_key(path, a) != thumbnail_key(path, b),
{
    let head = path_hash(path) + seq!['_'];
    if thumbnail_key(path, a) == thumbnail_key(path, b) {
        append_left_cancel(head, decimal_digits(a as nat), decimal_digits(b as nat));
        decimal_digits_injective(a as nat, b as nat);
    }
    if thumbnail_file(path, a) == thumbnail_file(path, b) {
        append_right_cancel(thumbnail_key(path, a), thumbnail_key(path, b), ".jpg"@);
    }
}

/// Whether the bytes that a data URL is made of are few enough for their
/// text to have a length.
pub open spec fn can_encode(len: nat) -> bool {
    4 * (len / 3 + 1) <= isize::MAX
}

/// A JPEG picture as a data URL.
pub open spec fn jpeg_url(data: Seq<u8>) -> Seq<char> {
    "data:image/jpeg;base64,"@ + base64_standard(data)
}

/// The data URL in which a thumbnail is handed out, whether it was just
/// rendered or read from the cache.
pub fn thumbnail_data_url(data: &[u8]) -> (url: String)
    requires
        can_encode(data@.len()),
    ensures
        url@ == jpeg_url(data@),
{
    let mut url = String::from_str("data:image/jpeg;base64,");
    url.append(base64_encode(data).as_str());
    url
}

/// Whether so many bytes are few enough to be written as a data URL.
pub fn encodable(len: usize) -> (ok: bool)
    ensures
        ok == can_encode(len as nat),
{
    len / 3 < (isize::MAX as usize) / 4
}

/// The data URL of a thumbnail, or nothing where the bytes are too many to
/// be written as one.
pub fn try_thumbnail_data_url(data: &[u8]) -> (url: Option<String>)
    ensures
        match url {
            Some(text) => can_encode(data@.len()) && text@ == jpeg_url(data@),
            None => !can_encode(data@.len()),
        },
{
    if encodable(data.len()) {
        Some(thumbnail_data_url(data))
    } else {
        None
    }
}

/// The media type for an extension in lower case; `image/png` for an
/// unknown one.
pub open spec fn mime_of(ext: Seq<char>) -> Seq<char> {
    if ext == "jpg"@ || ext == "jpeg"@ {
        "image/jpeg"@
    } else if ext == "png"@ {
        "image/png"@
    } else if ext == "gif"@ {
        "image/gif"@
    } else if ext == "webp"@ {
        "image/webp"@
    } else if ext == "bmp"@ {
        "image/bmp"@
    } else {
        "image/png"@
    }
}

/// The media type for an extension in lower case.
pub fn mime_type(ext: &str) -> (mime: &'static str)
    ensures
        mime@ == mime_of(ext@),
{
    if same_text(ext, "jpg") || same_text(ext, "jpeg") {
        "image/jpeg"
    } else if same_text(ext, "png") {
        "image/png"
    } else if same_text(ext, "gif") {
        "image/gif"
    } else if same_text(ext, "webp") {
        "image/webp"
    } else if same_text(ext, "bmp") {
        "image/bmp"
    } else {
        "image/png"
    }
}

/// The extension by which the media type of a path is chosen: that of its
/// final component, or `png` where there is none.
pub open spec fn url_extension(path: Seq<char>) -> Seq<char> {
    match file_name_of(path) {
        Some(name) => match extension_of(name) {
            Some(ext) => ext,
            None => "png"@,
        },
        None => "png"@,
    }
}

/// The data URL of a picture: its media type by the extension of its path,
/// and its bytes in base64.
pub open spec fn data_url(path: Seq<char>, data: Seq<u8>) -> Seq<char> {
    "data:"@ + mime_of(lowercase_of(url_extension(path))) + ";base64,"@ + base64_standard(data)
}

/// The extension by which the media type is chosen, from the final
/// component that was read off a path.
pub fn extension_for_url(component: Option<String>) -> (ext: String)
    ensures
        ext@ == match opt_text(component) {
            Some(name) => match extension_of(name) {
                Some(e) => e,
                None => "png"@,
            },
            None => "png"@,
        },
{
    match component {
        Some(name) => {
            let (_, ext) = split_extension(name.as_str());
            match ext {
                Some(e) => e,
                None => String::from_str("png"),
            }
        },
        None => String::from_str("png"),
    }
}

/// The data URL of the picture at `path` with the content `data`.
pub fn image_data_url(path: &str, data: &[u8]) -> (url: String)
    requires
        can_encode(data@.len()),
    ensures
        url@ == data_url(path@, data@),
{
    let ext = extension_for_url(path_component(path));
    let lower = lowercase(ext.as_str());
    let mut url = String::from_str("data:");
    url.append(mime_type(lower.as_str()));
    url.append(";base64,");
    url.append(base64_encode(data).as_str());
    url
}

/// The data URL of the picture at `path` with the content `data`, or
/// nothing where the bytes are too many to be written as one.
pub fn try_image_data_url(path: &str, data: &[u8]) -> (url: Option<String>)
    ensures
        match url {
            Some(text) => can_encode(data@.len()) && text@ == data_url(path@, data@),
            None => !can_encode(data@.len()),
        },
{
    if encodable(data.len()) {
        Some(image_data_url(path, data))
    } else {
        None
    }
}

/// Whether a thumbnail of the given size can be rendered: the bytes of a
/// picture of that size, at 16 bytes a pixel, fit into a buffer.
pub open spec fn can_render(size: u32) -> bool {
    16 * size * size <= isize::MAX
}

/// Whether a thumbnail of the given size can be rendered.
pub fn renderable(size: u32) -> (ok: bool)
    ensures
        ok == can_render(size),
{
    let s = size as u128;
    assert(s * s <= 0xffff_ffff * 0xffff_ffff) by (nonlinear_arith)
        requires
            0 <= s <= 0xffff_ffff,
    ;
    let square = s * s;
    assert(16 * square == 16 * size * size) by (nonlinear_arith)
        requires
            s == size,
            square == s * s,
    ;
    16 * square <= isize::MAX as u128
}

/// Why a thumbnail could not be rendered.
#[derive(Debug, Clone, PartialEq, Eq)]
pub enum ThumbnailError {
    /// The picture could not be read; with the cause.
    Open(String),
    /// The thumbnail could not be written as JPEG; with the cause.
    Encode(String),
}

impl ThumbnailError {
    /// The error in words.
    pub fn message(&self) -> (text: String)
        ensures
            text@ == match *self {
                ThumbnailError::Open(cause) => "Failed to open image: "@ + cause@,
                ThumbnailError::Encode(cause) => "Failed to encode thumbnail: "@ + cause@,
            },
    {
        match self {
            ThumbnailError::Open(cause) => {
                let mut text = String::from_str("Failed to open image: ");
                text.append(cause.as_str());
                text
            },
            ThumbnailError::Encode(cause) => {
                let mut text = String::from_str("Failed to encode thumbnail: ");
                text.append(cause.as_str());
                text
            },
        }
    }
}

/// What an attempt to open a picture comes to: what was opened, or the
/// failure to open it with the cause.
pub fn opened<T>(attempt: Result<T, String>) -> (outcome: Result<T, ThumbnailError>)
    ensures
        outcome == match attempt {
            Ok(value) => Ok::<T, ThumbnailError>(value),
            Err(cause) => Err(ThumbnailError::Open(cause)),
        },
{
    match attempt {
        Ok(value) => Ok(value),
        Err(cause) => Err(ThumbnailError::Open(cause)),
    }
}

/// What an attempt to write a thumbnail comes to: the bytes that were
/// written, or the failure to encode with the cause.
pub fn encoded(attempt: Result<Vec<u8>, String>) -> (outcome: Result<Vec<u8>, ThumbnailError>)
    ensures
        outcome == match attempt {
            Ok(bytes) => Ok::<Vec<u8>, ThumbnailError>(bytes),
            Err(cause) => Err(ThumbnailError::Encode(cause)),
        },
{
    match attempt {
        Ok(bytes) => Ok(bytes),
        Err(cause) => Err(ThumbnailError::Encode(cause)),
    }
}

/// An attempt with the cause of its failure in words.
fn in_words<T>(attempt: Result<T, image::ImageError>) -> (told: Result<T, String>)
    ensures
        told is Ok <==> attempt is Ok,
        attempt is Ok ==> told == Ok::<T, String>(attempt->Ok_0),
{
    match attempt {
        Ok(value) => Ok(value),
        Err(e) => Err(image_error_text(&e)),
    }
}

/// Whether a picture can be opened: its path names a format, and its bytes
/// can be decoded in that format.
pub open spec fn opens(path: Seq<char>, data: Seq<u8>) -> bool {
    names_format(path) && decoded(data, format_of(path)) is Some
}

/// The picture that opening gives, where the picture can be opened.
pub open spec fn picture_of(path: Seq<char>, data: Seq<u8>) -> image::DynamicImage {
    decoded(data, format_of(path))->0
}

/// The thumbnail of a picture: the picture is opened, scaled for a square
/// of edge `size`, and written as JPEG. None where the picture cannot be
/// opened or the scaled picture cannot be written.
pub open spec fn thumbnail_of(path: Seq<char>, data: Seq<u8>, size: u32) -> Option<Seq<u8>> {
    if opens(path, data) {
        jpeg_of(resized(picture_of(path, data), size))
    } else {
        None
    }
}

/// Opens a picture: `data` is decoded in the format that the extension of
/// `path` names.
fn open_picture(path: &str, data: &[u8]) -> (picture: Result<image::DynamicImage, ThumbnailError>)
    ensures
        match picture {
            Ok(p) => opens(path@, data@) && p == picture_of(path@, data@),
            Err(e) => !opens(path@, data@) && e is Open,
        },
{
    let format = match opened(in_words(image_format_of(path))) {
        Ok(format) => format,
        Err(e) => {
            return Err(e);
        },
    };
    opened(in_words(decode_image(data, format)))
}

/// Opens a picture and scales it: `data` is decoded in the format that the
/// extension of `path` names, and scaled with a triangle filter to the
/// largest size of its aspect ratio that fits into a square of edge `size`.
/// It succeeds on every picture that can be opened, and on no other; every
/// failure is one to open. What comes back is no wider and no higher than
/// `size`.
pub fn scale_picture(path: &str, data: &[u8], size: u32) -> (scaled: Result<
    ScaledPicture,
    ThumbnailError,
>)
    requires
        can_render(size),
    ensures
        match scaled {
            Ok(picture) => {
                &&& opens(path@, data@)
                &&& picture.shown() == resized(picture_of(path@, data@), size)
                &&& picture.pixels_wide() <= thumbnail_edge(size)
                &&& picture.pixels_high() <= thumbnail_edge(size)
            },
            Err(e) => !opens(path@, data@) && e is Open,
        },
{
    match open_picture(path, data) {
        Ok(picture) => Ok(fit_within(&picture, size)),
        Err(e) => Err(e),
    }
}

/// Opens a picture and scales it where the size can be rendered. A picture
/// that cannot be opened is reported first; for one that can, nothing
/// comes back where the size is too large to render.
pub fn try_scale_picture(path: &str, data: &[u8], size: u32) -> (scaled: Result<
    Option<ScaledPicture>,
    ThumbnailError,
>)
    ensures
        match scaled {
            Ok(Some(picture)) => {
                &&& opens(path@, data@)
                &&& can_render(size)
                &&& picture.shown() == resized(picture_of(path@, data@), size)
                &&& picture.pixels_wide() <= thumbnail_edge(size)
                &&& picture.pixels_high() <= thumbnail_edge(size)
            },
            Ok(None) => opens(path@, data@) && !can_render(size),
            Err(e) => !opens(path@, data@) && e is Open,
        },
{
    match open_picture(path, data) {
        Ok(picture) => {
            if renderable(size) {
                Ok(Some(fit_within(&picture, size)))
            } else {
                Ok(None)
            }
        },
        Err(e) => Err(e),
    }
}

/// Writes a scaled picture as JPEG. The bytes that come back are what the
/// cache stores. It succeeds where the picture can be written as JPEG, and
/// nowhere else; every failure is one to encode.
pub fn encode_thumbnail(scaled: &ScaledPicture) -> (bytes: Result<Vec<u8>, ThumbnailError>)
    ensures
        match bytes {
            Ok(b) => jpeg_of(scaled.shown()) == Some(b@),
            Err(e) => jpeg_of(scaled.shown()) is None && e is Encode,
        },
{
    encoded(in_words(encode_jpeg(&scaled.picture)))
}

/// Renders the thumbnail of a picture: opens and scales it, and writes it
/// as JPEG. It gives the thumbnail of the picture where there is one. It
/// fails as a failure to open where the picture cannot be opened, and as a
/// failure to encode where the scaled picture cannot be written.
pub fn render_thumbnail(path: &str, data: &[u8], size: u32) -> (rendered: Result<
    Vec<u8>,
    ThumbnailError,
>)
    requires
        can_render(size),
    ensures
        match rendered {
            Ok(bytes) => thumbnail_of(path@, data@, size) == Some(bytes@),
            Err(e) => thumbnail_of(path@, data@, size) is None && (e is Open <==> !opens(
                path@,
                data@,
            )),
        },
{
    match scale_picture(path, data, size) {
        Ok(scaled) => encode_thumbnail(&scaled),
        Err(e) => Err(e),
    }
}

/// What a look into the thumbnail cache comes to.
#[derive(Debug, Clone, PartialEq, Eq)]
pub enum CacheLookup {
    /// The cache holds the thumbnail: this data URL is handed out, and
    /// nothing is rendered.
    Serve(String),
    /// The cache holds the thumbnail, but its bytes are too many to be
    /// written as a data URL.
    TooLarge,
    /// The cache holds no thumbnail: it is to be rendered and stored.
    Render,
}

/// Decides from what the cache holds for a thumbnail what is done: bytes
/// in the cache are handed out as they are; without them the thumbnail is
/// rendered.
pub fn look_up(cached: Option<&[u8]>) -> (lookup: CacheLookup)
    ensures
        match cached {
            Some(data) => if can_encode(data@.len()) {
                lookup matches CacheLookup::Serve(url) && url@ == jpeg_url(data@)
            } else {
                lookup is TooLarge
            },
            None => lookup is Render,
        },
{
    match cached {
        Some(data) => match try_thumbnail_data_url(data) {
            Some(url) => CacheLookup::Serve(url),
            None => CacheLookup::TooLarge,
        },
        None => CacheLookup::Render,
    }
}

} // verus!
