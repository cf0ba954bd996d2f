//! Icon resolution: decoding an application bundle's icon container into a
//! portable raster data URI, and the pure extension-to-category icon
//! mapping for ordinary files.

use vstd::prelude::*;
use crate::rules::path_ext_of;
use crate::text::{chars_eq, chars_of, concat2, lower_chars_of, lower_seq, seq_starts_with,
    string_from_chars};
use vstd::string::StrSliceExecFns;
use vstd::string::StringSliceAdditionalSpecFns;

verus! {

/// What probing an icon container's bytes for the 32-bit RGBA variant of
/// one edge length yields: a function of the bytes and the length alone.
pub uninterp spec fn variant_rgba(data: Seq<u8>, width: u32) -> Option<Seq<u8>>;

/// What the raster encoder produces for an image of the given edge length
/// and pixel bytes: a function of its arguments alone.
pub uninterp spec fn png_of(width: u32, rgba: Seq<u8>) -> Seq<u8>;

/// What the base64 encoder produces for these bytes: a function of the
/// bytes alone.
pub uninterp spec fn base64_of(data: Seq<u8>) -> Seq<char>;

/// A container variant is usable when it decodes and its pixel buffer
/// holds exactly four bytes per pixel (a variant may decode to another
/// pixel layout; such a variant is passed over).
pub open spec fn variant_usable(data: Seq<u8>, width: u32) -> bool {
    match variant_rgba(data, width) {
        Some(px) => px.len() == 4 * width * width,
        None => false,
    }
}

/// The edge length the resolver settles on: the first usable variant in
/// the descending preference order.
pub open spec fn best_variant_width(data: Seq<u8>) -> Option<u32> {
    if variant_usable(data, 128) {
        Some(128u32)
    } else if variant_usable(data, 64) {
        Some(64u32)
    } else if variant_usable(data, 32) {
        Some(32u32)
    } else if variant_usable(data, 16) {
        Some(16u32)
    } else {
        None
    }
}

/// The data URI the resolver emits for one usable variant: the PNG
/// re-encoding of its pixels, base64-encoded under the PNG data-URI
/// prefix.
pub open spec fn icon_uri_of(data: Seq<u8>, width: u32) -> Seq<char> {
    data_uri_prefix() + base64_of(png_of(width, variant_rgba(data, width).unwrap()))
}

/// Relies on `icns::IconFamily::read` and `icns::IconFamily::get_icon_with_type`
/// for the 32-bit RGBA entry of the given edge length: whether the bytes
/// parse, whether the entry is present, and what it decodes to are
/// functions of the container bytes and the requested length alone.
#[verifier::external_body]
fn probe_variant(data: &Vec<u8>, width: u32) -> (r: Option<Vec<u8>>)
    requires
        width == 128 || width == 64 || width == 32 || width == 16,
    ensures
        r is Some <==> variant_rgba(data@, width) is Some,
        r is Some ==> r.unwrap()@ == variant_rgba(data@, width).unwrap(),
{
    let family = match icns::IconFamily::read(std::io::Cursor::new(data.as_slice())) {
        Ok(f) => f,
        Err(_) => return None,
    };
    let ty = match width {
        128 => icns::IconType::RGBA32_128x128,
        64 => icns::IconType::RGBA32_64x64,
        32 => icns::IconType::RGBA32_32x32,
        _ => icns::IconType::RGBA32_16x16,
    };
    match family.get_icon_with_type(ty) {
        Ok(icon) => Some(icon.data().to_vec()),
        Err(_) => None,
    }
}

/// Relies on `image::RgbaImage::from_raw` (which accepts exactly a buffer
/// of four bytes per pixel) and `image::DynamicImage::write_to` in the PNG
/// format: for a nonzero edge length and an exact-size eight-bit RGBA
/// buffer the in-memory encode succeeds — the encoder rejects only
/// unsupported color layouts and zero dimensions, and the sink is an
/// in-memory vector. The encoded bytes are a function of the dimensions
/// and pixels alone, and a PNG stream is never empty (it begins with an
/// eight-byte signature).
#[verifier::external_body]
fn png_from_rgba(width: u32, rgba: Vec<u8>) -> (r: Option<Vec<u8>>)
    requires
        0 < width <= 128,
        rgba@.len() == 4 * width * width,
    ensures
        r is Some,
        r.unwrap()@ == png_of(width, rgba@),
        r.unwrap()@.len() > 0,
{
    let img = match image::RgbaImage::from_raw(width, width, rgba) {
        Some(im) => im,
        None => return None,
    };
    let mut out: Vec<u8> = Vec::new();
    let dynimg = image::DynamicImage::ImageRgba8(img);
    match dynimg.write_to(&mut std::io::Cursor::new(&mut out), image::ImageFormat::Png) {
        Ok(_) => Some(out),
        Err(_) => None,
    }
}

/// Relies on `base64::Engine::encode` with the standard padded alphabet:
/// the encoding is a function of the bytes alone, and its length is four
/// characters for every started group of three bytes.
#[verifier::external_body]
fn b64_encode(data: &Vec<u8>) -> (r: String)
    ensures
        r@ == base64_of(data@),
        r@.len() == 4 * ((data@.len() + 2) / 3),
{
    base64::Engine::encode(&base64::engine::general_purpose::STANDARD, data.as_slice())
}

/// The conventional icon-container locations inside an application bundle,
/// probed in order.
pub fn icon_candidate_paths(app_path: &str) -> (r: Vec<String>)
    ensures
        r@.len() == 3,
        r@[0]@ == app_path@ + "/Contents/Resources/AppIcon.icns"@,
        r@[1]@ == app_path@ + "/Contents/Resources/app.icns"@,
        r@[2]@ == app_path@ + "/Contents/Resources/icon.icns"@,
{
    let mut v: Vec<String> = Vec::new();
    v.push(concat2(app_path, "/Contents/Resources/AppIcon.icns"));
    v.push(concat2(app_path, "/Contents/Resources/app.icns"));
    v.push(concat2(app_path, "/Contents/Resources/icon.icns"));
    v
}

/// The prefix of every icon data URI the resolver emits.
pub open spec fn data_uri_prefix() -> Seq<char> {
    "data:image/png;base64,"@
}

/// Probes one variant and, when it is usable, carries it through the PNG
/// and base64 encoders into a data URI.
fn try_variant(data: &Vec<u8>, width: u32) -> (r: Option<String>)
    requires
        width == 128 || width == 64 || width == 32 || width == 16,
    ensures
        r is Some <==> variant_usable(data@, width),
        r is Some ==> r.unwrap()@ == icon_uri_of(data@, width) && seq_starts_with(
            r.unwrap()@,
            data_uri_prefix(),
        ) && r.unwrap()@.len() > data_uri_prefix().len(),
{
    let px: Vec<u8> = match probe_variant(data, width) {
        Some(v) => v,
        None => {
            return None;
        },
    };
    let w: usize = width as usize;
    if px.len() != 4 * w * w {
        return None;
    }
    let png: Vec<u8> = match png_from_rgba(width, px) {
        Some(p) => p,
        None => {
            return None;
        },
    };
    let b64: String = b64_encode(&png);
    assert(b64@.len() >= 4) by {
        assert(png@.len() + 2 >= 3);
        vstd::arithmetic::div_mod::lemma_div_is_ordered(3, png@.len() as int + 2, 3);
    }
    let uri: String = concat2("data:image/png;base64,", b64.as_str());
    proof {
        assert(uri@.subrange(0, data_uri_prefix().len() as int) =~= data_uri_prefix());
    }
    Some(uri)
}

/// Decodes an icon container's bytes into a portable raster data URI: the
/// best usable 32-bit RGBA variant, in the descending preference order of
/// edge lengths, re-encoded as PNG and wrapped base64-encoded in a data
/// URI. An icon comes back exactly when some variant is usable — in
/// particular, bytes that do not parse as a container yield nothing — and
/// a returned URI always carries the PNG data-URI prefix followed by a
/// non-empty encoding.
pub fn decode_icon_bytes(data: &Vec<u8>) -> (r: Option<String>)
    ensures
        match best_variant_width(data@) {
            Some(w) => r is Some && r.unwrap()@ == icon_uri_of(data@, w),
            None => r is None,
        },
        r is Some ==> seq_starts_with(r.unwrap()@, data_uri_prefix()) && r.unwrap()@.len()
            > data_uri_prefix().len(),
{
    if let Some(uri) = try_variant(data, 128) {
        return Some(uri);
    }
    if let Some(uri) = try_variant(data, 64) {
        return Some(uri);
    }
    if let Some(uri) = try_variant(data, 32) {
        return Some(uri);
    }
    if let Some(uri) = try_variant(data, 16) {
        return Some(uri);
    }
    None
}

/// An entry is application-like: its path carries the bundle extension
/// (matched exactly), or some execute permission bit is set in the file
/// mode the caller read from its metadata.
pub open spec fn spec_is_executable(path: Seq<char>, mode: Option<u32>) -> bool {
    path_ext_of(path) == "app"@ || (match mode {
        Some(m) => m & 0o111 != 0,
        None => false,
    })
}

/// Decides whether the entry at `path` is application-like; `mode` is the
/// entry's permission mode, when the caller could read its metadata.
pub fn is_executable(path: &str, mode: Option<u32>) -> (r: bool)
    ensures
        r == spec_is_executable(path@, mode),
{
    let pv: Vec<char> = chars_of(path);
    let name: Vec<char> = crate::rules::file_name_chars(&pv);
    let ext: Vec<char> = crate::rules::ext_chars(&name);
    let appv: Vec<char> = chars_of("app");
    if chars_eq(&ext, &appv) {
        return true;
    }
    match mode {
        Some(m) => m & 0o111 != 0,
        None => false,
    }
}

/// Raster and vector image extensions.
pub open spec fn is_image_ext(e: Seq<char>) -> bool {
    e == "jpg"@
        || e == "jpeg"@
        || e == "png"@
        || e == "gif"@
        || e == "bmp"@
        || e == "tiff"@
        || e == "webp"@
        || e == "svg"@
}

/// Video container extensions.
pub open spec fn is_video_ext(e: Seq<char>) -> bool {
    e == "mp4"@
        || e == "mov"@
        || e == "avi"@
        || e == "mkv"@
        || e == "wmv"@
        || e == "flv"@
        || e == "webm"@
}

/// Audio extensions.
pub open spec fn is_audio_ext(e: Seq<char>) -> bool {
    e == "mp3"@
        || e == "wav"@
        || e == "flac"@
        || e == "aac"@
        || e == "ogg"@
        || e == "m4a"@
}

/// Archive extensions.
pub open spec fn is_archive_ext(e: Seq<char>) -> bool {
    e == "zip"@
        || e == "rar"@
        || e == "7z"@
        || e == "tar"@
        || e == "gz"@
        || e == "bz2"@
}

/// Source-code extensions.
pub open spec fn is_code_ext(e: Seq<char>) -> bool {
    e == "js"@
        || e == "ts"@
        || e == "jsx"@
        || e == "tsx"@
        || e == "py"@
        || e == "java"@
        || e == "cpp"@
        || e == "c"@
        || e == "h"@
        || e == "rs"@
        || e == "go"@
        || e == "php"@
        || e == "rb"@
        || e == "swift"@
}

/// Plain-text document extensions.
pub open spec fn is_text_ext(e: Seq<char>) -> bool {
    e == "txt"@
        || e == "md"@
        || e == "rtf"@
}

/// The static category icon for a lowercased extension: a total mapping
/// with a default case, so every extension has an icon.
pub open spec fn file_icon_uri(e: Seq<char>) -> Seq<char> {
    if is_image_ext(e) {
        "data:image/svg+xml;base64,PHN2ZyB3aWR0aD0iMzIiIGhlaWdodD0iMzIiIHZpZXdCb3g9IjAgMCAzMiAzMiIgZmlsbD0ibm9uZSIgeG1sbnM9Imh0dHA6Ly93d3cudzMub3JnLzIwMDAvc3ZnIj4KPHJlY3Qgd2lkdGg9IjMyIiBoZWlnaHQ9IjMyIiByeD0iNCIgZmlsbD0iIzRGNDZFNSIvPgo8cGF0aCBkPSJNOCA4SDE2VjEwSDhWOFoiIGZpbGw9IndoaXRlIi8+CjxwYXRoIGQ9Ik04IDEySDI0VjE0SDhWMTJaIiBmaWxsPSJ3aGl0ZSIvPgo8cGF0aCBkPSJNOCAxNkgyNFYxOEg4VjE2WiIgZmlsbD0id2hpdGUiLz4KPHBhdGggZD0iTTggMjBIMTZWMjJIOFYyMFoiIGZpbGw9IndoaXRlIi8+Cjwvc3ZnPgo="@
    } else if is_video_ext(e) {
        "data:image/svg+xml;base64,PHN2ZyB3aWR0aD0iMzIiIGhlaWdodD0iMzIiIHZpZXdCb3g9IjAgMCAzMiAzMiIgZmlsbD0ibm9uZSIgeG1sbnM9Imh0dHA6Ly93d3cudzMub3JnLzIwMDAvc3ZnIj4KPHJlY3Qgd2lkdGg9IjMyIiBoZWlnaHQ9IjMyIiByeD0iNCIgZmlsbD0iI0ZGNkI2QiIvPgo8cGF0aCBkPSJNMTIgMTBMMjAgMTZMMTIgMjJWMTBaIiBmaWxsPSJ3aGl0ZSIvPgo8L3N2Zz4K"@
    } else if is_audio_ext(e) {
        "data:image/svg+xml;base64,PHN2ZyB3aWR0aD0iMzIiIGhlaWdodD0iMzIiIHZpZXdCb3g9IjAgMCAzMiAzMiIgZmlsbD0ibm9uZSIgeG1sbnM9Imh0dHA6Ly93d3cudzMub3JnLzIwMDAvc3ZnIj4KPHJlY3Qgd2lkdGg9IjMyIiBoZWlnaHQ9IjMyIiByeD0iNCIgZmlsbD0iIzFEQjk1NCIvPgo8cGF0aCBkPSJNMTYgOEMxMC40NzcgOCA2IDEyLjQ3NyA2IDE4UzEwLjQ3NyAyOCAxNiAyOFMyNiAyMy41MjMgMjYgMThTMjEuNTIzIDggMTYgOFpNMTYgMjJDMTMuNzkxIDIyIDEyIDIwLjIwOSAxMiAxOFMxMy43OTEgMTQgMTYgMTRTMjAgMTUuNzkxIDIwIDE4UzE4LjIwOSAyMiAxNiAyMloiIGZpbGw9IndoaXRlIi8+Cjwvc3ZnPgo="@
    } else if is_archive_ext(e) {
        "data:image/svg+xml;base64,PHN2ZyB3aWR0aD0iMzIiIGhlaWdodD0iMzIiIHZpZXdCb3g9IjAgMCAzMiAzMiIgZmlsbD0ibm9uZSIgeG1sbnM9Imh0dHA6Ly93d3cudzMub3JnLzIwMDAvc3ZnIj4KPHJlY3Qgd2lkdGg9IjMyIiBoZWlnaHQ9IjMyIiByeD0iNCIgZmlsbD0iI0ZGOTUwMCIvPgo8cGF0aCBkPSJNOCAxMkg4LjVDOS4zMjg0MyAxMiAxMCAxMi42NzE2IDEwIDEzLjVWMTguNUMxMCAxOS4zMjg0IDkuMzI4NDMgMjAgOC5IDIwSDhWMTJaIiBmaWxsPSJ3aGl0ZSIvPgo8cGF0aCBkPSJNMTQgMTJIMTQuNUMxNS4zMjg0IDEyIDE2IDEyLjY3MTYgMTYgMTMuNVYxOC41QzE2IDE5LjMyODQgMTUuMzI4NCAyMCAxNC41IDIwSDE0VjEyWiIgZmlsbD0id2hpdGUiLz4KPHN2Zz4K"@
    } else if is_code_ext(e) {
        "data:image/svg+xml;base64,PHN2ZyB3aWR0aD0iMzIiIGhlaWdodD0iMzIiIHZpZXdCb3g9IjAgMCAzMiAzMiIgZmlsbD0ibm9uZSIgeG1sbnM9Imh0dHA6Ly93d3cudzMub3JnLzIwMDAvc3ZnIj4KPHJlY3Qgd2lkdGg9IjMyIiBoZWlnaHQ9IjMyIiByeD0iNCIgZmlsbD0iIzA3N0RGRiIvPgo8cGF0aCBkPSJNMTAgMTJMMTQgMTZMMTAgMjAiIHN0cm9rZT0id2hpdGUiIHN0cm9rZS13aWR0aD0iMiIgc3Ryb2tlLWxpbmVjYXA9InJvdW5kIiBzdHJva2UtbGluZWpvaW49InJvdW5kIi8+CjxwYXRoIGQ9Ik0xNiAyMEgyMiIgc3Ryb2tlPSJ3aGl0ZSIgc3Ryb2tlLXdpZHRoPSIyIiBzdHJva2UtbGluZWNhcD0icm91bmQiLz4KPC9zdmc+Cg=="@
    } else if e == "pdf"@ {
        "data:image/svg+xml;base64,PHN2ZyB3aWR0aD0iMzIiIGhlaWdodD0iMzIiIHZpZXdCb3g9IjAgMCAzMiAzMiIgZmlsbD0ibm9uZSIgeG1sbnM9Imh0dHA6Ly93d3cudzMub3JnLzIwMDAvc3ZnIj4KPHJlY3Qgd2lkdGg9IjMyIiBoZWlnaHQ9IjMyIiByeD0iNCIgZmlsbD0iI0RDMjYyNiIvPgo8dGV4dCB4PSI1IiB5PSIyMCIgZm9udC1mYW1pbHk9IkFyaWFsLCBzYW5zLXNlcmlmIiBmb250LXNpemU9IjEwIiBmb250LXdlaWdodD0iYm9sZCIgZmlsbD0id2hpdGUiPlBERjwvdGV4dD4KPC9zdmc+Cg=="@
    } else if is_text_ext(e) {
        "data:image/svg+xml;base64,PHN2ZyB3aWR0aD0iMzIiIGhlaWdodD0iMzIiIHZpZXdCb3g9IjAgMCAzMiAzMiIgZmlsbD0ibm9uZSIgeG1sbnM9Imh0dHA6Ly93d3cudzMub3JnLzIwMDAvc3ZnIj4KPHJlY3Qgd2lkdGg9IjMyIiBoZWlnaHQ9IjMyIiByeD0iNCIgZmlsbD0iIzY1NjU2NSIvPgo8cGF0aCBkPSJNOCA4SDE2VjEwSDhWOFoiIGZpbGw9IndoaXRlIi8+CjxwYXRoIGQ9Ik04IDEySDI0VjE0SDhWMTJaIiBmaWxsPSJ3aGl0ZSIvPgo8cGF0aCBkPSJNOCAxNkgyNFYxOEg4VjE2WiIgZmlsbD0id2hpdGUiLz4KPHBhdGggZD0iTTggMjBIMTZWMjJIOFYyMFoiIGZpbGw9IndoaXRlIi8+Cjwvc3ZnPgo="@
    } else {
        "data:image/svg+xml;base64,PHN2ZyB3aWR0aD0iMzIiIGhlaWdodD0iMzIiIHZpZXdCb3g9IjAgMCAzMiAzMiIgZmlsbD0ibm9uZSIgeG1sbnM9Imh0dHA6Ly93d3cudzMub3JnLzIwMDAvc3ZnIj4KPHJlY3Qgd2lkdGg9IjMyIiBoZWlnaHQ9IjMyIiByeD0iNCIgZmlsbD0iIzY1NjU2NSIvPgo8cGF0aCBkPSJNMTYgOEwxOCAxMEgyNlYyNkg2VjEwSDE0TDE2IDhaIiBmaWxsPSJ3aGl0ZSIvPgo8L3N2Zz4K"@
    }
}

/// Whether the view of `v` is the view of the literal `s`.
fn eq_lit(v: &Vec<char>, s: &str) -> (r: bool)
    ensures
        r == (v@ == s@),
{
    let sv: Vec<char> = chars_of(s);
    chars_eq(v, &sv)
}

/// The static category icon for a file, keyed by its extension folded to
/// lower case: images, video, audio, archives, code, PDF, plain text, and
/// a default for everything else. A total mapping: it never fails.
pub fn get_file_icon(_file_path: &str, extension: &str) -> (r: Option<String>)
    ensures
        r is Some,
        r.unwrap()@ == file_icon_uri(lower_seq(extension@)),
{
    let e: Vec<char> = lower_chars_of(extension);
    if eq_lit(&e, "jpg") || eq_lit(&e, "jpeg") || eq_lit(&e, "png") || eq_lit(&e, "gif") || eq_lit(&e, "bmp") || eq_lit(&e, "tiff") || eq_lit(&e, "webp") || eq_lit(&e, "svg") {
        Some("data:image/svg+xml;base64,PHN2ZyB3aWR0aD0iMzIiIGhlaWdodD0iMzIiIHZpZXdCb3g9IjAgMCAzMiAzMiIgZmlsbD0ibm9uZSIgeG1sbnM9Imh0dHA6Ly93d3cudzMub3JnLzIwMDAvc3ZnIj4KPHJlY3Qgd2lkdGg9IjMyIiBoZWlnaHQ9IjMyIiByeD0iNCIgZmlsbD0iIzRGNDZFNSIvPgo8cGF0aCBkPSJNOCA4SDE2VjEwSDhWOFoiIGZpbGw9IndoaXRlIi8+CjxwYXRoIGQ9Ik04IDEySDI0VjE0SDhWMTJaIiBmaWxsPSJ3aGl0ZSIvPgo8cGF0aCBkPSJNOCAxNkgyNFYxOEg4VjE2WiIgZmlsbD0id2hpdGUiLz4KPHBhdGggZD0iTTggMjBIMTZWMjJIOFYyMFoiIGZpbGw9IndoaXRlIi8+Cjwvc3ZnPgo=".to_owned())
    } else if eq_lit(&e, "mp4") || eq_lit(&e, "mov") || eq_lit(&e, "avi") || eq_lit(&e, "mkv") || eq_lit(&e, "wmv") || eq_lit(&e, "flv") || eq_lit(&e, "webm") {
        Some("data:image/svg+xml;base64,PHN2ZyB3aWR0aD0iMzIiIGhlaWdodD0iMzIiIHZpZXdCb3g9IjAgMCAzMiAzMiIgZmlsbD0ibm9uZSIgeG1sbnM9Imh0dHA6Ly93d3cudzMub3JnLzIwMDAvc3ZnIj4KPHJlY3Qgd2lkdGg9IjMyIiBoZWlnaHQ9IjMyIiByeD0iNCIgZmlsbD0iI0ZGNkI2QiIvPgo8cGF0aCBkPSJNMTIgMTBMMjAgMTZMMTIgMjJWMTBaIiBmaWxsPSJ3aGl0ZSIvPgo8L3N2Zz4K".to_owned())
    } else if eq_lit(&e, "mp3") || eq_lit(&e, "wav") || eq_lit(&e, "flac") || eq_lit(&e, "aac") || eq_lit(&e, "ogg") || eq_lit(&e, "m4a") {
        Some("data:image/svg+xml;base64,PHN2ZyB3aWR0aD0iMzIiIGhlaWdodD0iMzIiIHZpZXdCb3g9IjAgMCAzMiAzMiIgZmlsbD0ibm9uZSIgeG1sbnM9Imh0dHA6Ly93d3cudzMub3JnLzIwMDAvc3ZnIj4KPHJlY3Qgd2lkdGg9IjMyIiBoZWlnaHQ9IjMyIiByeD0iNCIgZmlsbD0iIzFEQjk1NCIvPgo8cGF0aCBkPSJNMTYgOEMxMC40NzcgOCA2IDEyLjQ3NyA2IDE4UzEwLjQ3NyAyOCAxNiAyOFMyNiAyMy41MjMgMjYgMThTMjEuNTIzIDggMTYgOFpNMTYgMjJDMTMuNzkxIDIyIDEyIDIwLjIwOSAxMiAxOFMxMy43OTEgMTQgMTYgMTRTMjAgMTUuNzkxIDIwIDE4UzE4LjIwOSAyMiAxNiAyMloiIGZpbGw9IndoaXRlIi8+Cjwvc3ZnPgo=".to_owned())
    } else if eq_lit(&e, "zip") || eq_lit(&e, "rar") || eq_lit(&e, "7z") || eq_lit(&e, "tar") || eq_lit(&e, "gz") || eq_lit(&e, "bz2") {
        Some("data:image/svg+xml;base64,PHN2ZyB3aWR0aD0iMzIiIGhlaWdodD0iMzIiIHZpZXdCb3g9IjAgMCAzMiAzMiIgZmlsbD0ibm9uZSIgeG1sbnM9Imh0dHA6Ly93d3cudzMub3JnLzIwMDAvc3ZnIj4KPHJlY3Qgd2lkdGg9IjMyIiBoZWlnaHQ9IjMyIiByeD0iNCIgZmlsbD0iI0ZGOTUwMCIvPgo8cGF0aCBkPSJNOCAxMkg4LjVDOS4zMjg0MyAxMiAxMCAxMi42NzE2IDEwIDEzLjVWMTguNUMxMCAxOS4zMjg0IDkuMzI4NDMgMjAgOC5IDIwSDhWMTJaIiBmaWxsPSJ3aGl0ZSIvPgo8cGF0aCBkPSJNMTQgMTJIMTQuNUMxNS4zMjg0IDEyIDE2IDEyLjY3MTYgMTYgMTMuNVYxOC41QzE2IDE5LjMyODQgMTUuMzI4NCAyMCAxNC41IDIwSDE0VjEyWiIgZmlsbD0id2hpdGUiLz4KPHN2Zz4K".to_owned())
    } else if eq_lit(&e, "js") || eq_lit(&e, "ts") || eq_lit(&e, "jsx") || eq_lit(&e, "tsx") || eq_lit(&e, "py") || eq_lit(&e, "java") || eq_lit(&e, "cpp") || eq_lit(&e, "c") || eq_lit(&e, "h") || eq_lit(&e, "rs") || eq_lit(&e, "go") || eq_lit(&e, "php") || eq_lit(&e, "rb") || eq_lit(&e, "swift") {
        Some("data:image/svg+xml;base64,PHN2ZyB3aWR0aD0iMzIiIGhlaWdodD0iMzIiIHZpZXdCb3g9IjAgMCAzMiAzMiIgZmlsbD0ibm9uZSIgeG1sbnM9Imh0dHA6Ly93d3cudzMub3JnLzIwMDAvc3ZnIj4KPHJlY3Qgd2lkdGg9IjMyIiBoZWlnaHQ9IjMyIiByeD0iNCIgZmlsbD0iIzA3N0RGRiIvPgo8cGF0aCBkPSJNMTAgMTJMMTQgMTZMMTAgMjAiIHN0cm9rZT0id2hpdGUiIHN0cm9rZS13aWR0aD0iMiIgc3Ryb2tlLWxpbmVjYXA9InJvdW5kIiBzdHJva2UtbGluZWpvaW49InJvdW5kIi8+CjxwYXRoIGQ9Ik0xNiAyMEgyMiIgc3Ryb2tlPSJ3aGl0ZSIgc3Ryb2tlLXdpZHRoPSIyIiBzdHJva2UtbGluZWNhcD0icm91bmQiLz4KPC9zdmc+Cg==".to_owned())
    } else if eq_lit(&e, "pdf") {
        Some("data:image/svg+xml;base64,PHN2ZyB3aWR0aD0iMzIiIGhlaWdodD0iMzIiIHZpZXdCb3g9IjAgMCAzMiAzMiIgZmlsbD0ibm9uZSIgeG1sbnM9Imh0dHA6Ly93d3cudzMub3JnLzIwMDAvc3ZnIj4KPHJlY3Qgd2lkdGg9IjMyIiBoZWlnaHQ9IjMyIiByeD0iNCIgZmlsbD0iI0RDMjYyNiIvPgo8dGV4dCB4PSI1IiB5PSIyMCIgZm9udC1mYW1pbHk9IkFyaWFsLCBzYW5zLXNlcmlmIiBmb250LXNpemU9IjEwIiBmb250LXdlaWdodD0iYm9sZCIgZmlsbD0id2hpdGUiPlBERjwvdGV4dD4KPC9zdmc+Cg==".to_owned())
    } else if eq_lit(&e, "txt") || eq_lit(&e, "md") || eq_lit(&e, "rtf") {
        Some("data:image/svg+xml;base64,PHN2ZyB3aWR0aD0iMzIiIGhlaWdodD0iMzIiIHZpZXdCb3g9IjAgMCAzMiAzMiIgZmlsbD0ibm9uZSIgeG1sbnM9Imh0dHA6Ly93d3cudzMub3JnLzIwMDAvc3ZnIj4KPHJlY3Qgd2lkdGg9IjMyIiBoZWlnaHQ9IjMyIiByeD0iNCIgZmlsbD0iIzY1NjU2NSIvPgo8cGF0aCBkPSJNOCA4SDE2VjEwSDhWOFoiIGZpbGw9IndoaXRlIi8+CjxwYXRoIGQ9Ik04IDEySDI0VjE0SDhWMTJaIiBmaWxsPSJ3aGl0ZSIvPgo8cGF0aCBkPSJNOCAxNkgyNFYxOEg4VjE2WiIgZmlsbD0id2hpdGUiLz4KPHBhdGggZD0iTTggMjBIMTZWMjJIOFYyMFoiIGZpbGw9IndoaXRlIi8+Cjwvc3ZnPgo=".to_owned())
    } else {
        Some("data:image/svg+xml;base64,PHN2ZyB3aWR0aD0iMzIiIGhlaWdodD0iMzIiIHZpZXdCb3g9IjAgMCAzMiAzMiIgZmlsbD0ibm9uZSIgeG1sbnM9Imh0dHA6Ly93d3cudzMub3JnLzIwMDAvc3ZnIj4KPHJlY3Qgd2lkdGg9IjMyIiBoZWlnaHQ9IjMyIiByeD0iNCIgZmlsbD0iIzY1NjU2NSIvPgo8cGF0aCBkPSJNMTYgOEwxOCAxMEgyNlYyNkg2VjEwSDE0TDE2IDhaIiBmaWxsPSJ3aGl0ZSIvPgo8L3N2Zz4K".to_owned())
    }
}

/// The offset basis of the 64-bit FNV-1a hash.
pub const FNV_OFFSET_BASIS: u64 = 0xcbf29ce484222325;

/// The prime of the 64-bit FNV-1a hash.
pub const FNV_PRIME: u64 = 0x100000001b3;

/// One FNV-1a step: fold a byte into the hash state.
pub open spec fn fnv1a_step(h: u64, b: u8) -> u64 {
    ((((h ^ (b as u64)) as int) * (FNV_PRIME as int)) % 0x10000000000000000) as u64
}

/// The 64-bit FNV-1a hash of a byte sequence.
pub open spec fn fnv1a(bytes: Seq<u8>) -> u64
    decreases bytes.len(),
{
    if bytes.len() == 0 {
        FNV_OFFSET_BASIS
    } else {
        fnv1a_step(fnv1a(bytes.drop_last()), bytes.last())
    }
}

/// The hexadecimal character of one value below sixteen.
pub open spec fn hex_digit(d: u64) -> char {
    if d < 10 {
        ((48 + d) as u8) as char
    } else {
        ((87 + d) as u8) as char
    }
}

/// The sixteen-character lowercase hexadecimal form of a hash, highest
/// nibble first.
pub open spec fn hex64(h: u64) -> Seq<char> {
    Seq::new(16, |i: int| hex_digit((h >> (((15 - i) * 4) as u64)) & 0xf))
}

/// Computes the 64-bit FNV-1a hash of a byte vector.
#[verifier::rlimit(50)]
fn fnv1a_exec(bytes: &Vec<u8>) -> (r: u64)
    ensures
        r == fnv1a(bytes@),
{
    let n: usize = bytes.len();
    let mut h: u64 = FNV_OFFSET_BASIS;
    let mut i: usize = 0;
    while i < n
        invariant
            i <= n,
            n == bytes@.len(),
            h == fnv1a(bytes@.subrange(0, i as int)),
        decreases n - i,
    {
        proof {
            assert(bytes@.subrange(0, i as int + 1).drop_last() =~= bytes@.subrange(0, i as int));
            assert(bytes@.subrange(0, i as int + 1).last() == bytes@[i as int]);
        }
        let ghost h_old = h;
        let x: u64 = h ^ (bytes[i] as u64);
        let prod: u128 = (x as u128) * (FNV_PRIME as u128);
        let red: u128 = prod % 0x10000000000000000;
        proof {
            assert(prod == (x as int) * (FNV_PRIME as int));
        }
        h = red as u64;
        proof {
            assert(h == fnv1a_step(h_old, bytes@[i as int]));
        }
        i = i + 1;
    }
    proof {
        assert(bytes@.subrange(0, n as int) =~= bytes@);
    }
    h
}

/// The content-derived cache key for an icon container: the hash of its
/// path, in hexadecimal. The key identifies a cached raster blob; a blob
/// once written for a key is immutable and reused.
pub fn icon_cache_key(container_path: &str) -> (r: String)
    ensures
        r@ == hex64(fnv1a(container_path.spec_bytes())),
{
    let bytes: Vec<u8> = container_path.as_bytes_vec();
    let h: u64 = fnv1a_exec(&bytes);
    let mut v: Vec<char> = Vec::new();
    let mut i: usize = 0;
    while i < 16
        invariant
            i <= 16,
            v@.len() == i,
            forall|j: int| 0 <= j < i ==> v@[j] == hex_digit((h >> (((15 - j) * 4) as u64)) & 0xf),
        decreases 16 - i,
    {
        let shift: u64 = ((15 - i) * 4) as u64;
        let nib: u64 = (h >> shift) & 0xf;
        assert(nib < 16) by (bit_vector)
            requires
                nib == (h >> shift) & 0xf,
        ;
        let c: char = if nib < 10 {
            (48 + nib as u8) as char
        } else {
            (87 + nib as u8) as char
        };
        v.push(c);
        i = i + 1;
    }
    proof {
        assert(v@ =~= hex64(h));
    }
    string_from_chars(&v)
}

} // verus!
