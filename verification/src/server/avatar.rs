//! Profile pictures: what may be uploaded, how a picture becomes a small square one,
//! under which key it is stored, and what stands in for a picture that is missing.

use image::{DynamicImage, ImageFormat, ImageReader, Limits};
use std::io::Cursor;

use vstd::prelude::*;

use crate::hashing::{hash64, text_hash};
use crate::numbers::{decimal, u64_decimal};
use crate::server::errors::{api_error, ApiError};
use crate::text::{
    ascii_lowercase, byte_len, is_ascii_lower, is_ascii_upper, is_blank, is_digit, split, split_on,
    str_byte_len, str_ends_with, str_eq, str_view, to_ascii_lower, to_chars, trim, trimmed, views,
};

verus! {

/// The largest upload, in bytes.
pub const MAX_AVATAR_BYTES: usize = 2_097_152;

/// The largest stored picture, in bytes.
pub const MAX_STORED_AVATAR_BYTES: usize = 262_144;

/// The most pixels that a picture may have.
pub const MAX_AVATAR_PIXELS: u64 = 16_000_000;

/// The longest edge that a picture may have.
pub const MAX_AVATAR_DIMENSION: u32 = 16_000;

/// The most memory that decoding may take.
pub const MAX_DECODE_ALLOC: u64 = 100_663_296;

/// The edge of a stored picture.
pub const AVATAR_EDGE: u32 = 128;

/// The longest storage key, in bytes.
pub const MAX_STORAGE_KEY_BYTES: usize = 160;

// ---------------------------------------------------------------------------
// The image library
// ---------------------------------------------------------------------------

/// A decoded picture of the image library.
#[verifier::external_type_specification]
#[verifier::external_body]
pub struct ExDynamicImage(DynamicImage);

/// The width and height of a picture.
pub uninterp spec fn image_size(image: DynamicImage) -> (u32, u32);

/// The picture's points, by column and row, each as the bytes of its red, green, blue and
/// alpha.
pub uninterp spec fn image_pixels(image: DynamicImage) -> Map<(int, int), Seq<u8>>;

/// The width and height that the header of encoded bytes announces, when the bytes are of
/// the format.
pub uninterp spec fn probed_size(raw: Seq<u8>, format: AvatarFormat) -> Option<(u32, u32)>;

/// The size of the picture in encoded bytes, and the pictures that decoding them may show,
/// when they can be decoded with edges of at most `max_edge` in `max_alloc` bytes of memory.
pub uninterp spec fn decodings(
    raw: Seq<u8>,
    format: AvatarFormat,
    max_edge: u32,
    max_alloc: u64,
) -> Option<((u32, u32), Set<Map<(int, int), Seq<u8>>>)>;

/// The pictures that scaling one to a width and height may give.
pub uninterp spec fn scalings(pixels: Map<(int, int), Seq<u8>>, width: u32, height: u32) -> Set<
    Map<(int, int), Seq<u8>>,
>;

/// The WebP files that encoding a picture may give.
pub uninterp spec fn webp_encodings(pixels: Map<(int, int), Seq<u8>>) -> Set<Seq<u8>>;

/// `DynamicImage::width` is the picture's width.
pub assume_specification[ DynamicImage::width ](image: &DynamicImage) -> (r: u32)
    ensures
        r == image_size(*image).0,
;

/// `DynamicImage::height` is the picture's height.
pub assume_specification[ DynamicImage::height ](image: &DynamicImage) -> (r: u32)
    ensures
        r == image_size(*image).1,
;

/// The part of a picture at (`x`, `y`) of this width and height.
pub open spec fn cropped(
    pixels: Map<(int, int), Seq<u8>>,
    x: int,
    y: int,
    width: int,
    height: int,
) -> Map<(int, int), Seq<u8>> {
    Map::new(
        |p: (int, int)| 0 <= p.0 < width && 0 <= p.1 < height,
        |p: (int, int)| pixels[(p.0 + x, p.1 + y)],
    )
}

/// `DynamicImage::crop_imm` copies the points of the rectangle, which lies inside the
/// picture, to a picture of the rectangle's size.
pub assume_specification[ DynamicImage::crop_imm ](
    image: &DynamicImage,
    x: u32,
    y: u32,
    width: u32,
    height: u32,
) -> (r: DynamicImage)
    requires
        x + width <= image_size(*image).0,
        y + height <= image_size(*image).1,
    ensures
        image_size(r) == (width, height),
        image_pixels(r) == cropped(
            image_pixels(*image),
            x as int,
            y as int,
            width as int,
            height as int,
        ),
;

/// The picture is one that decoding may show.
pub open spec fn is_decoding(
    image: DynamicImage,
    found: ((u32, u32), Set<Map<(int, int), Seq<u8>>>),
) -> bool {
    let (size, pictures) = found;
    image_size(image) == size && pictures.contains(image_pixels(image))
}

/// `ImageReader::into_dimensions`: reads the header of the bytes as one of the format.
#[verifier::external_body]
fn probe_dimensions(raw: &[u8], format: AvatarFormat) -> (r: Option<(u32, u32)>)
    ensures
        r == probed_size(raw@, format),
{
    let format = match format {
        AvatarFormat::Jpeg => ImageFormat::Jpeg,
        AvatarFormat::Png => ImageFormat::Png,
        AvatarFormat::WebP => ImageFormat::WebP,
    };
    ImageReader::with_format(Cursor::new(raw), format).into_dimensions().ok()
}

/// `ImageReader::decode` under limits: what comes out has one of the pictures that the bytes
/// may show, of the size that they have, and no edge is longer than the limit. Which of the
/// pictures it is (codecs may round differently) is left open.
#[verifier::external_body]
fn decode_within(raw: &[u8], format: AvatarFormat, max_edge: u32, max_alloc: u64) -> (r: Option<
    DynamicImage,
>)
    ensures
        r is Some <==> decodings(raw@, format, max_edge, max_alloc) is Some,
        r matches Some(image) ==> is_decoding(
            image,
            decodings(raw@, format, max_edge, max_alloc)->Some_0,
        ) && image_size(image).0 <= max_edge && image_size(image).1 <= max_edge,
{
    let format = match format {
        AvatarFormat::Jpeg => ImageFormat::Jpeg,
        AvatarFormat::Png => ImageFormat::Png,
        AvatarFormat::WebP => ImageFormat::WebP,
    };
    let mut limits = Limits::default();
    limits.max_image_width = Some(max_edge);
    limits.max_image_height = Some(max_edge);
    limits.max_alloc = Some(max_alloc);
    let mut reader = ImageReader::with_format(Cursor::new(raw), format);
    reader.limits(limits);
    reader.decode().ok()
}

/// `DynamicImage::resize_exact` with the Lanczos filter: a picture of exactly the wanted
/// size. The filter computes with floating point, so its points are only said to be among
/// those that scaling may give.
#[verifier::external_body]
fn resize_lanczos(image: &DynamicImage, width: u32, height: u32) -> (r: DynamicImage)
    requires
        image_size(*image).0 <= 16_000,
        image_size(*image).1 <= 16_000,
        width <= 1_024,
        height <= 1_024,
    ensures
        image_size(r) == (width, height),
        scalings(image_pixels(*image), width, height).contains(image_pixels(r)),
{
    image.resize_exact(width, height, image::imageops::FilterType::Lanczos3)
}

/// `DynamicImage::write_to` with the WebP format, into memory: an encoding of the picture. A
/// picture whose edges the format can hold, from 1 to 16,384 points, can be encoded: its
/// colours are converted as the format needs, and memory takes what is written.
#[verifier::external_body]
fn encode_webp(image: &DynamicImage) -> (r: Option<Vec<u8>>)
    ensures
        r matches Some(bytes) ==> webp_encodings(image_pixels(*image)).contains(bytes@),
        1 <= image_size(*image).0 <= 16_384 && 1 <= image_size(*image).1 <= 16_384 ==> r is Some,
{
    let mut out = Cursor::new(Vec::new());
    image.write_to(&mut out, ImageFormat::WebP).ok()?;
    Some(out.into_inner())
}

// ---------------------------------------------------------------------------
// Formats
// ---------------------------------------------------------------------------

/// The formats that an upload may have.
#[derive(Debug, Clone, Copy, PartialEq, Eq, Structural)]
pub enum AvatarFormat {
    Jpeg,
    Png,
    WebP,
}

/// The bytes from `at` on are these.
pub open spec fn bytes_at(raw: Seq<u8>, at: int, expected: Seq<u8>) -> bool {
    at + expected.len() <= raw.len() && raw.subrange(at, at + expected.len()) == expected
}

fn has_bytes_at(raw: &[u8], at: usize, expected: &[u8]) -> (r: bool)
    requires
        at + expected@.len() <= usize::MAX,
    ensures
        r == bytes_at(raw@, at as int, expected@),
{
    if raw.len() < at + expected.len() {
        return false;
    }
    let mut i: usize = 0;
    while i < expected.len()
        invariant
            0 <= i <= expected@.len(),
            at + expected@.len() <= raw@.len() <= usize::MAX,
            forall|k: int| 0 <= k < i ==> raw@[at + k] == #[trigger] expected@[k],
        decreases expected@.len() - i,
    {
        if raw[at + i] != expected[i] {
            proof {
                assert(raw@.subrange(at as int, at + expected@.len())[i as int]
                    != expected@[i as int]);
            }
            return false;
        }
        i = i + 1;
    }
    assert(raw@.subrange(at as int, at + expected@.len()) =~= expected@);
    true
}

pub open spec fn jpeg_magic() -> Seq<u8> {
    seq![0xffu8, 0xd8, 0xff]
}

pub open spec fn png_magic() -> Seq<u8> {
    seq![0x89u8, 0x50, 0x4e, 0x47, 0x0d, 0x0a, 0x1a, 0x0a]
}

pub open spec fn riff_magic() -> Seq<u8> {
    seq![0x52u8, 0x49, 0x46, 0x46]
}

pub open spec fn webp_magic() -> Seq<u8> {
    seq![0x57u8, 0x45, 0x42, 0x50]
}

/// The format that the first bytes tell.
pub open spec fn sniffed(raw: Seq<u8>) -> Option<AvatarFormat> {
    if bytes_at(raw, 0, jpeg_magic()) {
        Some(AvatarFormat::Jpeg)
    } else if bytes_at(raw, 0, png_magic()) {
        Some(AvatarFormat::Png)
    } else if bytes_at(raw, 0, riff_magic()) && bytes_at(raw, 8, webp_magic()) {
        Some(AvatarFormat::WebP)
    } else {
        None
    }
}

pub fn sniff_avatar_image_format(raw: &[u8]) -> (r: Option<AvatarFormat>)
    ensures
        r == sniffed(raw@),
{
    let jpeg: [u8; 3] = [0xffu8, 0xd8, 0xff];
    let png: [u8; 8] = [0x89u8, 0x50, 0x4e, 0x47, 0x0d, 0x0a, 0x1a, 0x0a];
    let riff: [u8; 4] = [0x52u8, 0x49, 0x46, 0x46];
    let webp: [u8; 4] = [0x57u8, 0x45, 0x42, 0x50];
    proof {
        assert(jpeg@ =~= jpeg_magic());
        assert(png@ =~= png_magic());
        assert(riff@ =~= riff_magic());
        assert(webp@ =~= webp_magic());
    }
    if has_bytes_at(raw, 0, &jpeg) {
        Some(AvatarFormat::Jpeg)
    } else if has_bytes_at(raw, 0, &png) {
        Some(AvatarFormat::Png)
    } else if has_bytes_at(raw, 0, &riff) && has_bytes_at(raw, 8, &webp) {
        Some(AvatarFormat::WebP)
    } else {
        None
    }
}

/// The format that a content type names.
pub open spec fn declared(content_type: Option<Seq<char>>) -> Option<AvatarFormat> {
    match content_type {
        Some(value) => {
            let name = to_ascii_lower(trimmed(split_on(value, ';')[0]));
            if name == "image/jpeg"@ || name == "image/jpg"@ {
                Some(AvatarFormat::Jpeg)
            } else if name == "image/png"@ {
                Some(AvatarFormat::Png)
            } else if name == "image/webp"@ {
                Some(AvatarFormat::WebP)
            } else {
                None
            }
        },
        None => None,
    }
}

/// The declared format, or else the one that the bytes tell.
pub open spec fn resolved(raw: Seq<u8>, content_type: Option<Seq<char>>) -> Option<AvatarFormat> {
    if declared(content_type) is Some {
        declared(content_type)
    } else {
        sniffed(raw)
    }
}

fn declared_format(content_type: Option<&str>) -> (r: Option<AvatarFormat>)
    ensures
        r == declared(str_view(content_type)),
{
    match content_type {
        Some(value) => {
            let parts = split(value, ';');
            assert(views(parts@)[0] == parts@[0]@);
            let name = ascii_lowercase(trim(parts[0].as_str()).as_str());
            let n = name.as_str();
            if str_eq(n, "image/jpeg") || str_eq(n, "image/jpg") {
                Some(AvatarFormat::Jpeg)
            } else if str_eq(n, "image/png") {
                Some(AvatarFormat::Png)
            } else if str_eq(n, "image/webp") {
                Some(AvatarFormat::WebP)
            } else {
                None
            }
        },
        None => None,
    }
}

/// A message of an avatar that is not accepted.
pub open spec fn rejected<T>(r: Result<T, String>, message: Seq<char>) -> bool {
    r matches Err(text) && text@ == message
}

pub fn resolve_avatar_image_format(raw: &[u8], content_type: Option<&str>) -> (r: Result<
    AvatarFormat,
    String,
>)
    ensures
        match resolved(raw@, str_view(content_type)) {
            Some(format) => r == Ok::<AvatarFormat, String>(format),
            None => rejected(
                r,
                "avatar content type must be image/jpeg, image/png, or image/webp"@,
            ),
        },
{
    if let Some(format) = declared_format(content_type) {
        return Ok(format);
    }
    match sniff_avatar_image_format(raw) {
        Some(format) => Ok(format),
        None => Err(
            "avatar content type must be image/jpeg, image/png, or image/webp".to_owned(),
        ),
    }
}

// ---------------------------------------------------------------------------
// Processing
// ---------------------------------------------------------------------------

/// What is wrong with a picture's size.
pub open spec fn size_fault(width: int, height: int) -> Option<Seq<char>> {
    if width == 0 || height == 0 {
        Some("avatar image has no pixels"@)
    } else if width > MAX_AVATAR_DIMENSION || height > MAX_AVATAR_DIMENSION || width * height
        > MAX_AVATAR_PIXELS {
        Some("avatar dimensions are too large"@)
    } else {
        None
    }
}

pub fn validate_avatar_dimensions(width: u32, height: u32) -> (r: Result<(), String>)
    ensures
        match size_fault(width as int, height as int) {
            Some(message) => rejected(r, message),
            None => r is Ok,
        },
{
    if width == 0 || height == 0 {
        return Err("avatar image has no pixels".to_owned());
    }
    if width > MAX_AVATAR_DIMENSION || height > MAX_AVATAR_DIMENSION {
        return Err("avatar dimensions are too large".to_owned());
    }
    assert(width * height <= 256_000_000) by (nonlinear_arith)
        requires
            width <= 16_000,
            height <= 16_000,
    ;
    if width as u64 * height as u64 > MAX_AVATAR_PIXELS {
        return Err("avatar dimensions are too large".to_owned());
    }
    Ok(())
}

/// Why the bytes of a format cannot be used.
pub open spec fn decode_fault(raw: Seq<u8>, format: AvatarFormat) -> Option<Seq<char>> {
    match probed_size(raw, format) {
        None => Some("avatar data does not match its declared image type"@),
        Some((width, height)) => match size_fault(width as int, height as int) {
            Some(message) => Some(message),
            None => if decodings(raw, format, MAX_AVATAR_DIMENSION, MAX_DECODE_ALLOC) is None {
                Some("avatar data could not be decoded within safe limits"@)
            } else {
                None
            },
        },
    }
}

/// The header is looked at first: nothing is decoded whose announced size is refused.
fn decode_avatar_image(raw: &[u8], format: AvatarFormat) -> (r: Result<DynamicImage, String>)
    ensures
        match decode_fault(raw@, format) {
            Some(message) => rejected(r, message),
            None => {
                let found = decodings(raw@, format, MAX_AVATAR_DIMENSION, MAX_DECODE_ALLOC)->Some_0;
                &&& r is Ok
                &&& is_decoding(r->Ok_0, found)
                &&& image_size(r->Ok_0).0 <= MAX_AVATAR_DIMENSION
                &&& image_size(r->Ok_0).1 <= MAX_AVATAR_DIMENSION
            },
        },
{
    let (width, height) = match probe_dimensions(raw, format) {
        Some(size) => size,
        None => return Err("avatar data does not match its declared image type".to_owned()),
    };
    match validate_avatar_dimensions(width, height) {
        Ok(()) => {},
        Err(message) => return Err(message),
    }
    match decode_within(raw, format, MAX_AVATAR_DIMENSION, MAX_DECODE_ALLOC) {
        Some(image) => Ok(image),
        None => Err("avatar data could not be decoded within safe limits".to_owned()),
    }
}

/// The edge of the largest square in a picture.
pub open spec fn square_edge(width: int, height: int) -> int {
    if width <= height {
        width
    } else {
        height
    }
}

/// The largest square in the middle of a picture.
pub open spec fn centre_square(
    pixels: Map<(int, int), Seq<u8>>,
    width: int,
    height: int,
) -> Map<(int, int), Seq<u8>> {
    let edge = square_edge(width, height);
    cropped(pixels, (width - edge) / 2, (height - edge) / 2, edge, edge)
}

fn crop_to_square(image: &DynamicImage) -> (r: DynamicImage)
    ensures
        image_pixels(r) == centre_square(
            image_pixels(*image),
            image_size(*image).0 as int,
            image_size(*image).1 as int,
        ),
        image_size(r).0 == image_size(r).1,
        image_size(r).0 == square_edge(
            image_size(*image).0 as int,
            image_size(*image).1 as int,
        ),
{
    let width: u32 = image.width();
    let height: u32 = image.height();
    let side: u32 = if width <= height {
        width
    } else {
        height
    };
    let left: u32 = (width - side) / 2;
    let top: u32 = (height - side) / 2;
    image.crop_imm(left, top, side, side)
}

/// Why an upload is refused.
pub open spec fn avatar_fault(raw: Seq<u8>, content_type: Option<Seq<char>>) -> Option<Seq<char>> {
    if raw.len() == 0 || raw.len() > MAX_AVATAR_BYTES {
        Some("avatar must be a non-empty JPEG, PNG, or WebP smaller than 2 MiB"@)
    } else if resolved(raw, content_type) is None {
        Some("avatar content type must be image/jpeg, image/png, or image/webp"@)
    } else {
        decode_fault(raw, decoding_format(raw, content_type))
    }
}

/// The format that an upload is decoded with: what the bytes tell counts more than what
/// was declared.
pub open spec fn decoding_format(raw: Seq<u8>, content_type: Option<Seq<char>>) -> AvatarFormat {
    match sniffed(raw) {
        Some(format) => format,
        None => resolved(raw, content_type)->0,
    }
}

/// The bytes are a WebP file of the middle square of a picture that the upload may show,
/// scaled to the edge of a stored picture.
pub open spec fn is_avatar_of(bytes: Seq<u8>, raw: Seq<u8>, format: AvatarFormat) -> bool {
    let (size, pictures) = decodings(raw, format, MAX_AVATAR_DIMENSION, MAX_DECODE_ALLOC)->Some_0;
    let (width, height) = size;
    exists|picture: Map<(int, int), Seq<u8>>, small: Map<(int, int), Seq<u8>>|
        {
            &&& #[trigger] pictures.contains(picture)
            &&& #[trigger] scalings(
                centre_square(picture, width as int, height as int),
                AVATAR_EDGE,
                AVATAR_EDGE,
            ).contains(small)
            &&& webp_encodings(small).contains(bytes)
        }
}

pub fn process_avatar_image(raw: &[u8], content_type: Option<&str>) -> (r: Result<Vec<u8>, String>)
    ensures
        match avatar_fault(raw@, str_view(content_type)) {
            Some(message) => rejected(r, message),
            None => r matches Ok(bytes) && is_avatar_of(
                bytes@,
                raw@,
                decoding_format(raw@, str_view(content_type)),
            ),
        },
{
    if raw.len() == 0 || raw.len() > MAX_AVATAR_BYTES {
        return Err("avatar must be a non-empty JPEG, PNG, or WebP smaller than 2 MiB".to_owned());
    }
    let declared_format = match resolve_avatar_image_format(raw, content_type) {
        Ok(format) => format,
        Err(message) => return Err(message),
    };
    let format = match sniff_avatar_image_format(raw) {
        Some(format) => format,
        None => declared_format,
    };
    let image = match decode_avatar_image(raw, format) {
        Ok(image) => image,
        Err(message) => return Err(message),
    };
    let square = crop_to_square(&image);
    let small = resize_lanczos(&square, AVATAR_EDGE, AVATAR_EDGE);
    match encode_webp(&small) {
        Some(bytes) => {
            proof {
                let (size, pictures) = decodings(
                    raw@,
                    format,
                    MAX_AVATAR_DIMENSION,
                    MAX_DECODE_ALLOC,
                )->Some_0;
                let (width, height) = size;
                assert(pictures.contains(image_pixels(image)));
                assert(scalings(
                    centre_square(image_pixels(image), width as int, height as int),
                    AVATAR_EDGE,
                    AVATAR_EDGE,
                ).contains(image_pixels(small)));
            }
            Ok(bytes)
        },
        None => Err("avatar image could not be encoded".to_owned()),
    }
}

// ---------------------------------------------------------------------------
// Keys, addresses and files
// ---------------------------------------------------------------------------

pub fn avatar_url(public_id: &str, version: u32) -> (r: String)
    ensures
        r@ == "/v1/avatars/"@ + public_id@ + "?v="@ + decimal(version as nat),
{
    let mut out = "/v1/avatars/".to_owned();
    out.append(public_id);
    out.append("?v=");
    out.append(u64_decimal(version as u64).as_str());
    out
}

pub open spec fn is_ascii_alphanumeric(c: char) -> bool {
    is_digit(c) || is_ascii_upper(c) || is_ascii_lower(c)
}

fn char_is_alphanumeric(c: char) -> (r: bool)
    ensures
        r == is_ascii_alphanumeric(c),
{
    ('0' <= c && c <= '9') || ('A' <= c && c <= 'Z') || ('a' <= c && c <= 'z')
}

/// A character that may stand in a file name, or the underscore in its place.
pub open spec fn safe_char(c: char) -> char {
    if is_ascii_alphanumeric(c) || c == '_' || c == '-' {
        c
    } else {
        '_'
    }
}

pub open spec fn safe_name(user_id: Seq<char>) -> Seq<char> {
    user_id.map_values(|c: char| safe_char(c))
}

pub fn avatar_storage_key(user_id: &str, content_hash: &str) -> (r: String)
    ensures
        r@ == safe_name(user_id@) + "_"@ + content_hash@ + ".webp"@,
{
    let mut out = String::new();
    for c in it: user_id.chars()
        invariant
            it.seq() == user_id@,
            out@ == safe_name(it.seq().take(it.index())),
    {
        proof {
            assert(it.seq().take(it.index() + 1) == it.seq().take(it.index()).push(c));
            assert(safe_name(it.seq().take(it.index() + 1)) == safe_name(
                it.seq().take(it.index()),
            ).push(safe_char(c)));
        }
        if char_is_alphanumeric(c) || c == '_' || c == '-' {
            out.push(c);
        } else {
            out.push('_');
        }
    }
    assert(user_id@.take(user_id@.len() as int) == user_id@);
    out.append("_");
    out.append(content_hash);
    out.append(".webp");
    out
}

pub open spec fn storage_key_char(c: char) -> bool {
    is_ascii_alphanumeric(c) || c == '.' || c == '_' || c == '-'
}

/// A key that names a file of the avatar directory, and nothing outside of it.
pub open spec fn is_storage_key(key: Seq<char>) -> bool {
    &&& key.len() > 0
    &&& byte_len(key) <= MAX_STORAGE_KEY_BYTES
    &&& ".webp"@.is_suffix_of(key)
    &&& forall|i: int| 0 <= i < key.len() ==> storage_key_char(#[trigger] key[i])
}

/// The name of the file in the avatar directory.
pub fn avatar_file_name(storage_key: &str) -> (r: Result<String, String>)
    ensures
        is_storage_key(storage_key@) ==> (r matches Ok(name) && name@ == storage_key@),
        !is_storage_key(storage_key@) ==> rejected(r, "invalid avatar storage key"@),
{
    if storage_key.is_empty() || str_byte_len(storage_key) > MAX_STORAGE_KEY_BYTES
        || !str_ends_with(storage_key, ".webp") {
        return Err("invalid avatar storage key".to_owned());
    }
    let chars = to_chars(storage_key);
    let mut i: usize = 0;
    while i < chars.len()
        invariant
            0 <= i <= chars@.len(),
            chars@ == storage_key@,
            forall|k: int| 0 <= k < i ==> storage_key_char(#[trigger] chars@[k]),
        decreases chars@.len() - i,
    {
        let c = chars[i];
        if !(char_is_alphanumeric(c) || c == '.' || c == '_' || c == '-') {
            assert(!storage_key_char(storage_key@[i as int]));
            return Err("invalid avatar storage key".to_owned());
        }
        i = i + 1;
    }
    Ok(storage_key.to_owned())
}

/// The key under which a picture is stored is always one that a file can be read under
/// again, as long as it is not too long: whatever the account is called, it names a file
/// in the avatar directory.
pub proof fn lemma_storage_key_names_a_file(user_id: Seq<char>, content_hash: Seq<char>)
    requires
        forall|i: int|
            0 <= i < content_hash.len() ==> is_ascii_alphanumeric(#[trigger] content_hash[i]),
        user_id.len() + content_hash.len() + 6 <= MAX_STORAGE_KEY_BYTES,
    ensures
        is_storage_key(safe_name(user_id) + "_"@ + content_hash + ".webp"@),
{
    reveal_strlit("_");
    reveal_strlit(".webp");
    let key = safe_name(user_id) + "_"@ + content_hash + ".webp"@;
    assert forall|i: int| 0 <= i < key.len() implies storage_key_char(#[trigger] key[i]) by {
        let n = user_id.len();
        if i < n {
            assert(key[i] == safe_char(user_id[i]));
        } else if i == n {
            assert(key[i] == '_');
        } else if i < n + 1 + content_hash.len() {
            assert(key[i] == content_hash[i - n - 1]);
        } else {
            let k = i - n - 1 - content_hash.len();
            assert(key[i] == ".webp"@[k]);
        }
    }
    assert(".webp"@.is_suffix_of(key)) by {
        assert(key.subrange(key.len() - 5, key.len() as int) =~= ".webp"@);
    }
    assert(vstd::utf8::is_ascii_chars(key)) by {
        assert forall|i: int| 0 <= i < key.len() implies '\0' <= #[trigger] key[i] <= '\u{7f}' by {
            assert(storage_key_char(key[i]));
        }
    }
    vstd::utf8::is_ascii_chars_encode_utf8(key);
}

/// A key holds nothing that leads out of the directory.
pub proof fn lemma_storage_key_stays_inside(key: Seq<char>, i: int)
    requires
        is_storage_key(key),
        0 <= i < key.len(),
    ensures
        key[i] != '/',
        key[i] != '\\',
        key[i] != '\0',
{
    assert(storage_key_char(key[i]));
}

/// Stored files that are larger than any processed picture are not served.
pub fn check_stored_avatar(size: usize) -> (r: Result<(), String>)
    ensures
        size <= MAX_STORED_AVATAR_BYTES ==> r is Ok,
        size > MAX_STORED_AVATAR_BYTES ==> rejected(
            r,
            "avatar file exceeds expected processed size"@,
        ),
{
    if size > MAX_STORED_AVATAR_BYTES {
        Err("avatar file exceeds expected processed size".to_owned())
    } else {
        Ok(())
    }
}

/// Where pictures are kept.
#[derive(Debug)]
pub enum AvatarDirectory {
    Configured(String),
    Temporary,
    BesideDatabase,
}

/// The configured directory, when there is one; else a directory beside the database, which
/// is a temporary one for a database in memory.
pub fn avatar_directory(configured: Option<&str>, database_path: &str) -> (r: AvatarDirectory)
    ensures
        match configured {
            Some(path) if trimmed(path@).len() > 0 => r matches AvatarDirectory::Configured(p)
                && p@ == path@,
            _ => if database_path@ == ":memory:"@ {
                r is Temporary
            } else {
                r is BesideDatabase
            },
        },
{
    if let Some(path) = configured {
        if !is_blank(path) {
            return AvatarDirectory::Configured(path.to_owned());
        }
    }
    if str_eq(database_path, ":memory:") {
        AvatarDirectory::Temporary
    } else {
        AvatarDirectory::BesideDatabase
    }
}

/// The file that is no longer needed after an upload: the picture before, once the new one
/// is recorded, or the new one, when it could not be recorded. `previous` is the key that was
/// recorded before.
pub fn avatar_cleanup(previous: Option<&str>, stored: &str, recorded: bool) -> (r: Option<String>)
    ensures
        recorded ==> match previous {
            Some(old_key) if old_key@ != stored@ => r matches Some(key) && key@ == old_key@,
            _ => r is None,
        },
        !recorded ==> match previous {
            Some(old_key) if old_key@ == stored@ => r is None,
            _ => r matches Some(key) && key@ == stored@,
        },
        // The picture that is on record afterwards is never the one that goes.
        r matches Some(key) ==> (if recorded {
            key@ != stored@
        } else {
            str_view(previous) != Some(key@)
        }),
{
    match previous {
        Some(old_key) => {
            if str_eq(old_key, stored) {
                None
            } else if recorded {
                Some(old_key.to_owned())
            } else {
                Some(stored.to_owned())
            }
        },
        None => {
            if recorded {
                None
            } else {
                Some(stored.to_owned())
            }
        },
    }
}

/// Why an upload failed.
#[derive(Debug)]
pub enum AvatarFailure {
    Busy,
    Rejected(String),
    Crashed,
    NotStored,
}

pub fn avatar_failure_answer(failure: &AvatarFailure) -> (r: ApiError)
    ensures
        match failure {
            AvatarFailure::Busy => r.is(
                503,
                "temporarily_unavailable"@,
                "avatar processing is busy; retry later"@,
            ),
            AvatarFailure::Rejected(message) => r.is(400, "invalid_avatar"@, message@),
            AvatarFailure::Crashed => r.is(500, "internal"@, "avatar processing failed"@),
            AvatarFailure::NotStored => r.is(
                503,
                "temporarily_unavailable"@,
                "avatar storage is unavailable"@,
            ),
        },
{
    match failure {
        AvatarFailure::Busy => api_error(
            503,
            "temporarily_unavailable",
            "avatar processing is busy; retry later",
        ),
        AvatarFailure::Rejected(message) => api_error(400, "invalid_avatar", message.as_str()),
        AvatarFailure::Crashed => api_error(500, "internal", "avatar processing failed"),
        AvatarFailure::NotStored => api_error(
            503,
            "temporarily_unavailable",
            "avatar storage is unavailable",
        ),
    }
}

// ---------------------------------------------------------------------------
// The picture of an account without one
// ---------------------------------------------------------------------------

/// A character as it stands in XML text.
pub open spec fn xml_char(c: char) -> Seq<char> {
    if c == '&' {
        "&amp;"@
    } else if c == '<' {
        "&lt;"@
    } else if c == '>' {
        "&gt;"@
    } else if c == '"' {
        "&quot;"@
    } else if c == '\'' {
        "&apos;"@
    } else {
        seq![c]
    }
}

/// A text as it stands in XML.
pub open spec fn xml_text(text: Seq<char>) -> Seq<char>
    decreases text.len(),
{
    if text.len() == 0 {
        Seq::empty()
    } else {
        xml_text(text.drop_last()) + xml_char(text.last())
    }
}

pub fn xml_escape(value: &str) -> (r: String)
    ensures
        r@ == xml_text(value@),
{
    let mut out = String::new();
    for c in it: value.chars()
        invariant
            it.seq() == value@,
            out@ == xml_text(it.seq().take(it.index())),
    {
        proof {
            let next = it.seq().take(it.index() + 1);
            assert(next.drop_last() =~= it.seq().take(it.index()));
            assert(next.last() == c);
        }
        if c == '&' {
            out.append("&amp;");
        } else if c == '<' {
            out.append("&lt;");
        } else if c == '>' {
            out.append("&gt;");
        } else if c == '"' {
            out.append("&quot;");
        } else if c == '\'' {
            out.append("&apos;");
        } else {
            proof {
                assert(out@.push(c) =~= out@ + seq![c]);
            }
            out.push(c);
        }
    }
    assert(value@.take(value@.len() as int) == value@);
    out
}

/// An escaped text opens and closes no tag and no attribute.
pub proof fn lemma_escaped_text_has_no_markup(text: Seq<char>, i: int)
    requires
        0 <= i < xml_text(text).len(),
    ensures
        xml_text(text)[i] != '<',
        xml_text(text)[i] != '>',
        xml_text(text)[i] != '"',
        xml_text(text)[i] != '\'',
    decreases text.len(),
{
    reveal_strlit("&amp;");
    reveal_strlit("&lt;");
    reveal_strlit("&gt;");
    reveal_strlit("&quot;");
    reveal_strlit("&apos;");
    if text.len() > 0 {
        let front = xml_text(text.drop_last());
        if i < front.len() {
            lemma_escaped_text_has_no_markup(text.drop_last(), i);
        } else {
            assert(xml_text(text)[i] == xml_char(text.last())[i - front.len()]);
        }
    }
}

pub open spec fn avatar_color(index: int) -> Seq<char> {
    if index == 0 {
        "#147D92"@
    } else if index == 1 {
        "#A23E48"@
    } else if index == 2 {
        "#44633F"@
    } else if index == 3 {
        "#875A26"@
    } else if index == 4 {
        "#405A8C"@
    } else {
        "#7D3D78"@
    }
}

fn palette(index: u64) -> (r: &'static str)
    requires
        index < 6,
    ensures
        r@ == avatar_color(index as int),
{
    if index == 0 {
        "#147D92"
    } else if index == 1 {
        "#A23E48"
    } else if index == 2 {
        "#44633F"
    } else if index == 3 {
        "#875A26"
    } else if index == 4 {
        "#405A8C"
    } else {
        "#7D3D78"
    }
}

/// The first character of a name, or a question mark.
pub open spec fn initial(display_name: Seq<char>) -> char {
    if trimmed(display_name).len() > 0 {
        trimmed(display_name)[0]
    } else {
        '?'
    }
}

/// The initial on a ground whose color goes with the avatar's identity.
pub open spec fn avatar_svg(display_name: Seq<char>, avatar_id: Seq<char>) -> Seq<char> {
    let letter = xml_text(seq![initial(display_name)]);
    "<svg xmlns=\"http://www.w3.org/2000/svg\" viewBox=\"0 0 128 128\" role=\"img\" aria-label=\""@
        + letter + "\"><rect width=\"128\" height=\"128\" fill=\""@ + avatar_color(
        (text_hash(avatar_id) % 6) as int,
    )
        + "\"/><text x=\"64\" y=\"82\" text-anchor=\"middle\" font-family=\"sans-serif\" font-size=\"64\" fill=\"white\">"@
        + letter + "</text></svg>"@
}

pub fn default_avatar_svg(display_name: &str, avatar_id: &str) -> (r: String)
    ensures
        r@ == avatar_svg(display_name@, avatar_id@),
{
    let name = to_chars(trim(display_name).as_str());
    let mut first = String::new();
    if name.len() > 0 {
        first.push(name[0]);
    } else {
        first.push('?');
    }
    assert(first@ =~= seq![initial(display_name@)]);
    let letter = xml_escape(first.as_str());
    let mut out =
        "<svg xmlns=\"http://www.w3.org/2000/svg\" viewBox=\"0 0 128 128\" role=\"img\" aria-label=\"".to_owned();
    out.append(letter.as_str());
    out.append("\"><rect width=\"128\" height=\"128\" fill=\"");
    out.append(palette(hash64(avatar_id) % 6));
    out.append(
        "\"/><text x=\"64\" y=\"82\" text-anchor=\"middle\" font-family=\"sans-serif\" font-size=\"64\" fill=\"white\">",
    );
    out.append(letter.as_str());
    out.append("</text></svg>");
    out
}

} // verus!
