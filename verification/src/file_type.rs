//! Deciding whether a file is text, an image or a video, from its suffix and its first bytes.
use vstd::prelude::*;

use crate::paths::{is_plain_name, last_segment, name_extension, slash_only};
use crate::text::{all_ascii, ascii_lower_seq, chars_eq_str, has_prefix, owned, push_str, starts_with_str, str_chars, to_lowercase, trim, trim_chars, unicode_lowercase};

verus! {

/// How many leading bytes of a file are looked at when sniffing its type.
pub const MEDIA_SNIFF_BYTES: usize = 512;

/// The broad kind of a file.
#[derive(Clone, Copy, Debug, PartialEq, Eq, Structural)]
pub enum FileKind {
    Text,
    Image,
    Video,
    Unknown,
}

/// A file kind together with its MIME type (empty when the kind is unknown).
#[derive(Clone, Debug)]
pub struct FileType {
    pub kind: FileKind,
    pub mime_type: String,
}

/// The view of an optional string.
pub open spec fn opt_view(o: Option<String>) -> Option<Seq<char>> {
    match o {
        Some(s) => Some(s@),
        None => None,
    }
}

/// MIME type of suffixes that are text although they name a picture format.
pub open spec fn text_mime_spec(s: Seq<char>) -> Option<Seq<char>> {
    if s == ".svg"@ {
        Some("image/svg+xml"@)
    } else {
        None
    }
}

/// MIME type of image suffixes.
pub open spec fn image_mime_spec(s: Seq<char>) -> Option<Seq<char>> {
    if s == ".png"@ {
        Some("image/png"@)
    } else if s == ".jpg"@ || s == ".jpeg"@ {
        Some("image/jpeg"@)
    } else if s == ".gif"@ {
        Some("image/gif"@)
    } else if s == ".bmp"@ {
        Some("image/bmp"@)
    } else if s == ".tif"@ || s == ".tiff"@ {
        Some("image/tiff"@)
    } else if s == ".webp"@ {
        Some("image/webp"@)
    } else if s == ".ico"@ {
        Some("image/x-icon"@)
    } else if s == ".heic"@ {
        Some("image/heic"@)
    } else if s == ".heif"@ {
        Some("image/heif"@)
    } else if s == ".avif"@ {
        Some("image/avif"@)
    } else if s == ".svgz"@ {
        Some("image/svg+xml"@)
    } else {
        None
    }
}

/// MIME type of video suffixes.
pub open spec fn video_mime_spec(s: Seq<char>) -> Option<Seq<char>> {
    if s == ".mp4"@ {
        Some("video/mp4"@)
    } else if s == ".mkv"@ {
        Some("video/x-matroska"@)
    } else if s == ".avi"@ {
        Some("video/x-msvideo"@)
    } else if s == ".mov"@ {
        Some("video/quicktime"@)
    } else if s == ".wmv"@ {
        Some("video/x-ms-wmv"@)
    } else if s == ".webm"@ {
        Some("video/webm"@)
    } else if s == ".m4v"@ {
        Some("video/x-m4v"@)
    } else if s == ".flv"@ {
        Some("video/x-flv"@)
    } else if s == ".3gp"@ {
        Some("video/3gpp"@)
    } else if s == ".3g2"@ {
        Some("video/3gpp2"@)
    } else {
        None
    }
}

/// MIME types known for further suffixes.
pub open spec fn extra_mime_spec(s: Seq<char>) -> Option<Seq<char>> {
    if s == ".avif"@ {
        Some("image/avif"@)
    } else if s == ".heic"@ {
        Some("image/heic"@)
    } else if s == ".heif"@ {
        Some("image/heif"@)
    } else if s == ".mkv"@ {
        Some("video/x-matroska"@)
    } else if s == ".m4v"@ {
        Some("video/x-m4v"@)
    } else if s == ".3gp"@ {
        Some("video/3gpp"@)
    } else if s == ".3g2"@ {
        Some("video/3gpp2"@)
    } else if s == ".ts"@ || s == ".tsx"@ || s == ".mts"@ || s == ".cts"@ {
        Some("text/typescript"@)
    } else {
        None
    }
}

/// Image MIME type for an ISO media `ftyp` brand.
pub open spec fn ftyp_image_spec(b: Seq<char>) -> Option<Seq<char>> {
    if b == "avif"@ || b == "avis"@ {
        Some("image/avif"@)
    } else if b == "heic"@ || b == "hevc"@ {
        Some("image/heic"@)
    } else if b == "heif"@ || b == "heix"@ || b == "mif1"@ || b == "msf1"@ {
        Some("image/heif"@)
    } else {
        None
    }
}

/// Video MIME type for an ISO media `ftyp` brand.
pub open spec fn ftyp_video_spec(b: Seq<char>) -> Option<Seq<char>> {
    if b == "isom"@ || b == "iso2"@ || b == "iso5"@ || b == "mp41"@ || b == "mp42"@ || b
        == "avc1"@ || b == "mp4v"@ {
        Some("video/mp4"@)
    } else if b == "m4v"@ {
        Some("video/x-m4v"@)
    } else if b == "qt"@ {
        Some("video/quicktime"@)
    } else if b == "3gp4"@ || b == "3gp5"@ || b == "3gp6"@ || b == "3gp7"@ {
        Some("video/3gpp"@)
    } else if b == "3g2"@ {
        Some("video/3gpp2"@)
    } else {
        None
    }
}

/// Suffixes of formats that are never read as text.
pub open spec fn non_text_suffix_spec(s: Seq<char>) -> bool {
    ||| s == ".icns"@ || s == ".psd"@ || s == ".ai"@ || s == ".eps"@ || s == ".pdf"@
    ||| s == ".doc"@ || s == ".docx"@ || s == ".dot"@ || s == ".dotx"@ || s == ".rtf"@
    ||| s == ".odt"@ || s == ".xls"@ || s == ".xlsx"@ || s == ".xlsm"@ || s == ".xlt"@
    ||| s == ".xltx"@ || s == ".xltm"@ || s == ".ods"@ || s == ".ppt"@ || s == ".pptx"@
    ||| s == ".pptm"@ || s == ".pps"@ || s == ".ppsx"@ || s == ".odp"@ || s == ".pages"@
    ||| s == ".numbers"@ || s == ".key"@ || s == ".zip"@ || s == ".rar"@ || s == ".7z"@
    ||| s == ".tar"@ || s == ".gz"@ || s == ".tgz"@ || s == ".bz2"@ || s == ".xz"@
    ||| s == ".zst"@ || s == ".lz"@ || s == ".lz4"@ || s == ".br"@ || s == ".cab"@
    ||| s == ".ar"@ || s == ".deb"@ || s == ".rpm"@ || s == ".mp3"@ || s == ".wav"@
    ||| s == ".flac"@ || s == ".ogg"@ || s == ".oga"@ || s == ".opus"@ || s == ".aac"@
    ||| s == ".m4a"@ || s == ".wma"@ || s == ".ttf"@ || s == ".otf"@ || s == ".woff"@
    ||| s == ".woff2"@ || s == ".exe"@ || s == ".dll"@ || s == ".so"@ || s == ".dylib"@
    ||| s == ".bin"@ || s == ".apk"@ || s == ".ipa"@ || s == ".jar"@ || s == ".class"@
    ||| s == ".pyc"@ || s == ".pyo"@ || s == ".wasm"@ || s == ".dmg"@ || s == ".iso"@
    ||| s == ".img"@ || s == ".sqlite"@ || s == ".sqlite3"@ || s == ".db"@ || s == ".db3"@
}

fn text_mime_by_suffix(s: &[char]) -> (r: Option<String>)
    ensures
        opt_view(r) == text_mime_spec(s@),
{
    if chars_eq_str(s, ".svg") {
        Some(owned("image/svg+xml"))
    } else {
        None
    }
}

fn image_mime_by_suffix(s: &[char]) -> (r: Option<String>)
    ensures
        opt_view(r) == image_mime_spec(s@),
{
    if chars_eq_str(s, ".png") {
        Some(owned("image/png"))
    } else if chars_eq_str(s, ".jpg") || chars_eq_str(s, ".jpeg") {
        Some(owned("image/jpeg"))
    } else if chars_eq_str(s, ".gif") {
        Some(owned("image/gif"))
    } else if chars_eq_str(s, ".bmp") {
        Some(owned("image/bmp"))
    } else if chars_eq_str(s, ".tif") || chars_eq_str(s, ".tiff") {
        Some(owned("image/tiff"))
    } else if chars_eq_str(s, ".webp") {
        Some(owned("image/webp"))
    } else if chars_eq_str(s, ".ico") {
        Some(owned("image/x-icon"))
    } else if chars_eq_str(s, ".heic") {
        Some(owned("image/heic"))
    } else if chars_eq_str(s, ".heif") {
        Some(owned("image/heif"))
    } else if chars_eq_str(s, ".avif") {
        Some(owned("image/avif"))
    } else if chars_eq_str(s, ".svgz") {
        Some(owned("image/svg+xml"))
    } else {
        None
    }
}

fn video_mime_by_suffix(s: &[char]) -> (r: Option<String>)
    ensures
        opt_view(r) == video_mime_spec(s@),
{
    if chars_eq_str(s, ".mp4") {
        Some(owned("video/mp4"))
    } else if chars_eq_str(s, ".mkv") {
        Some(owned("video/x-matroska"))
    } else if chars_eq_str(s, ".avi") {
        Some(owned("video/x-msvideo"))
    } else if chars_eq_str(s, ".mov") {
        Some(owned("video/quicktime"))
    } else if chars_eq_str(s, ".wmv") {
        Some(owned("video/x-ms-wmv"))
    } else if chars_eq_str(s, ".webm") {
        Some(owned("video/webm"))
    } else if chars_eq_str(s, ".m4v") {
        Some(owned("video/x-m4v"))
    } else if chars_eq_str(s, ".flv") {
        Some(owned("video/x-flv"))
    } else if chars_eq_str(s, ".3gp") {
        Some(owned("video/3gpp"))
    } else if chars_eq_str(s, ".3g2") {
        Some(owned("video/3gpp2"))
    } else {
        None
    }
}

fn extra_mime_type(s: &[char]) -> (r: Option<String>)
    ensures
        opt_view(r) == extra_mime_spec(s@),
{
    if chars_eq_str(s, ".avif") {
        Some(owned("image/avif"))
    } else if chars_eq_str(s, ".heic") {
        Some(owned("image/heic"))
    } else if chars_eq_str(s, ".heif") {
        Some(owned("image/heif"))
    } else if chars_eq_str(s, ".mkv") {
        Some(owned("video/x-matroska"))
    } else if chars_eq_str(s, ".m4v") {
        Some(owned("video/x-m4v"))
    } else if chars_eq_str(s, ".3gp") {
        Some(owned("video/3gpp"))
    } else if chars_eq_str(s, ".3g2") {
        Some(owned("video/3gpp2"))
    } else if chars_eq_str(s, ".ts") || chars_eq_str(s, ".tsx") || chars_eq_str(s, ".mts")
        || chars_eq_str(s, ".cts") {
        Some(owned("text/typescript"))
    } else {
        None
    }
}

fn ftyp_image_brand(b: &[char]) -> (r: Option<String>)
    ensures
        opt_view(r) == ftyp_image_spec(b@),
{
    if chars_eq_str(b, "avif") || chars_eq_str(b, "avis") {
        Some(owned("image/avif"))
    } else if chars_eq_str(b, "heic") || chars_eq_str(b, "hevc") {
        Some(owned("image/heic"))
    } else if chars_eq_str(b, "heif") || chars_eq_str(b, "heix") || chars_eq_str(b, "mif1")
        || chars_eq_str(b, "msf1") {
        Some(owned("image/heif"))
    } else {
        None
    }
}

fn ftyp_video_brand(b: &[char]) -> (r: Option<String>)
    ensures
        opt_view(r) == ftyp_video_spec(b@),
{
    if chars_eq_str(b, "isom") || chars_eq_str(b, "iso2") || chars_eq_str(b, "iso5")
        || chars_eq_str(b, "mp41") || chars_eq_str(b, "mp42") || chars_eq_str(b, "avc1")
        || chars_eq_str(b, "mp4v") {
        Some(owned("video/mp4"))
    } else if chars_eq_str(b, "m4v") {
        Some(owned("video/x-m4v"))
    } else if chars_eq_str(b, "qt") {
        Some(owned("video/quicktime"))
    } else if chars_eq_str(b, "3gp4") || chars_eq_str(b, "3gp5") || chars_eq_str(b, "3gp6")
        || chars_eq_str(b, "3gp7") {
        Some(owned("video/3gpp"))
    } else if chars_eq_str(b, "3g2") {
        Some(owned("video/3gpp2"))
    } else {
        None
    }
}

/// Whether a suffix names a format that is never read as text.
pub fn is_non_text_suffix(s: &[char]) -> (r: bool)
    ensures
        r == non_text_suffix_spec(s@),
{
    chars_eq_str(s, ".icns") || chars_eq_str(s, ".psd") || chars_eq_str(s, ".ai")
        || chars_eq_str(s, ".eps") || chars_eq_str(s, ".pdf") || chars_eq_str(s, ".doc")
        || chars_eq_str(s, ".docx") || chars_eq_str(s, ".dot") || chars_eq_str(s, ".dotx")
        || chars_eq_str(s, ".rtf") || chars_eq_str(s, ".odt") || chars_eq_str(s, ".xls")
        || chars_eq_str(s, ".xlsx") || chars_eq_str(s, ".xlsm") || chars_eq_str(s, ".xlt")
        || chars_eq_str(s, ".xltx") || chars_eq_str(s, ".xltm") || chars_eq_str(s, ".ods")
        || chars_eq_str(s, ".ppt") || chars_eq_str(s, ".pptx") || chars_eq_str(s, ".pptm")
        || chars_eq_str(s, ".pps") || chars_eq_str(s, ".ppsx") || chars_eq_str(s, ".odp")
        || chars_eq_str(s, ".pages") || chars_eq_str(s, ".numbers") || chars_eq_str(s, ".key")
        || chars_eq_str(s, ".zip") || chars_eq_str(s, ".rar") || chars_eq_str(s, ".7z")
        || chars_eq_str(s, ".tar") || chars_eq_str(s, ".gz") || chars_eq_str(s, ".tgz")
        || chars_eq_str(s, ".bz2") || chars_eq_str(s, ".xz") || chars_eq_str(s, ".zst")
        || chars_eq_str(s, ".lz") || chars_eq_str(s, ".lz4") || chars_eq_str(s, ".br")
        || chars_eq_str(s, ".cab") || chars_eq_str(s, ".ar") || chars_eq_str(s, ".deb")
        || chars_eq_str(s, ".rpm") || chars_eq_str(s, ".mp3") || chars_eq_str(s, ".wav")
        || chars_eq_str(s, ".flac") || chars_eq_str(s, ".ogg") || chars_eq_str(s, ".oga")
        || chars_eq_str(s, ".opus") || chars_eq_str(s, ".aac") || chars_eq_str(s, ".m4a")
        || chars_eq_str(s, ".wma") || chars_eq_str(s, ".ttf") || chars_eq_str(s, ".otf")
        || chars_eq_str(s, ".woff") || chars_eq_str(s, ".woff2") || chars_eq_str(s, ".exe")
        || chars_eq_str(s, ".dll") || chars_eq_str(s, ".so") || chars_eq_str(s, ".dylib")
        || chars_eq_str(s, ".bin") || chars_eq_str(s, ".apk") || chars_eq_str(s, ".ipa")
        || chars_eq_str(s, ".jar") || chars_eq_str(s, ".class") || chars_eq_str(s, ".pyc")
        || chars_eq_str(s, ".pyo") || chars_eq_str(s, ".wasm") || chars_eq_str(s, ".dmg")
        || chars_eq_str(s, ".iso") || chars_eq_str(s, ".img") || chars_eq_str(s, ".sqlite")
        || chars_eq_str(s, ".sqlite3") || chars_eq_str(s, ".db") || chars_eq_str(s, ".db3")
}

/// Whether `h` starts with the bytes `p`.
pub open spec fn byte_prefix(h: Seq<u8>, p: Seq<u8>) -> bool {
    p.len() <= h.len() && h.take(p.len() as int) == p
}

/// Whether `p` occurs somewhere in `h`.
pub open spec fn byte_window(h: Seq<u8>, p: Seq<u8>) -> bool {
    exists|i: int| 0 <= i && i + p.len() <= h.len() && #[trigger] h.subrange(i, i + p.len()) == p
}

/// ASCII lower-casing of one byte.
pub open spec fn lower_byte(b: u8) -> u8 {
    if 65 <= b && b <= 90 {
        (b + 32) as u8
    } else {
        b
    }
}

/// The decoding of bytes that `String::from_utf8_lossy` returns: invalid sequences become U+FFFD.
pub uninterp spec fn utf8_lossy(bytes: Seq<u8>) -> Seq<char>;

/// `String::from_utf8_lossy`: the result is named; bytes below 128 decode one for one, which the
/// UTF-8 definition that the documentation refers to gives.
#[verifier::external_body]
fn lossy_string(bytes: &[u8]) -> (r: String)
    ensures
        r@ == utf8_lossy(bytes@),
        (forall|i: int| 0 <= i < bytes@.len() ==> bytes@[i] < 128) ==> r@ == bytes@.map_values(
            |b: u8| b as char,
        ),
{
    String::from_utf8_lossy(bytes).to_string()
}

/// The brand of an ISO media file: bytes 8..12, decoded, lower-cased and trimmed.
pub open spec fn ftyp_brand_spec(h: Seq<u8>) -> Option<Seq<char>> {
    if h.len() < 12 || h.subrange(4, 8) != seq![0x66u8, 0x74, 0x79, 0x70] {
        None
    } else {
        Some(trim(unicode_lowercase(utf8_lossy(h.subrange(8, 12)))))
    }
}

/// What the magic bytes at the start of a header say about the file.
pub open spec fn sniff_spec(data: Seq<u8>) -> Option<(FileKind, Seq<char>)> {
    let h = data.take(if data.len() < 512 { data.len() as int } else { 512 });
    if byte_prefix(h, seq![0x89u8, 0x50, 0x4e, 0x47, 0x0d, 0x0a, 0x1a, 0x0a]) {
        Some((FileKind::Image, "image/png"@))
    } else if byte_prefix(h, seq![0xffu8, 0xd8, 0xff]) {
        Some((FileKind::Image, "image/jpeg"@))
    } else if byte_prefix(h, seq![0x47u8, 0x49, 0x46, 0x38, 0x37, 0x61]) || byte_prefix(
        h,
        seq![0x47u8, 0x49, 0x46, 0x38, 0x39, 0x61],
    ) {
        Some((FileKind::Image, "image/gif"@))
    } else if byte_prefix(h, seq![0x42u8, 0x4d]) {
        Some((FileKind::Image, "image/bmp"@))
    } else if byte_prefix(h, seq![0x49u8, 0x49, 0x2a, 0x00]) || byte_prefix(
        h,
        seq![0x4du8, 0x4d, 0x00, 0x2a],
    ) {
        Some((FileKind::Image, "image/tiff"@))
    } else if byte_prefix(h, seq![0x00u8, 0x00, 0x01, 0x00]) {
        Some((FileKind::Image, "image/x-icon"@))
    } else if byte_prefix(h, seq![0x52u8, 0x49, 0x46, 0x46]) && h.len() >= 12 && h.subrange(8, 12)
        == seq![0x57u8, 0x45, 0x42, 0x50] {
        Some((FileKind::Image, "image/webp"@))
    } else if byte_prefix(h, seq![0x52u8, 0x49, 0x46, 0x46]) && h.len() >= 12 && h.subrange(8, 12)
        == seq![0x41u8, 0x56, 0x49, 0x20] {
        Some((FileKind::Video, "video/x-msvideo"@))
    } else if byte_prefix(h, seq![0x46u8, 0x4c, 0x56]) {
        Some((FileKind::Video, "video/x-flv"@))
    } else if byte_prefix(
        h,
        seq![
            0x30u8, 0x26, 0xb2, 0x75, 0x8e, 0x66, 0xcf, 0x11, 0xa6, 0xd9, 0x00, 0xaa, 0x00, 0x62,
            0xce, 0x6c,
        ],
    ) {
        Some((FileKind::Video, "video/x-ms-wmv"@))
    } else if byte_prefix(h, seq![0x1au8, 0x45, 0xdf, 0xa3]) && byte_window(
        h.map_values(|b: u8| lower_byte(b)),
        seq![0x77u8, 0x65, 0x62, 0x6d],
    ) {
        Some((FileKind::Video, "video/webm"@))
    } else if byte_prefix(h, seq![0x1au8, 0x45, 0xdf, 0xa3]) && byte_window(
        h.map_values(|b: u8| lower_byte(b)),
        seq![0x6du8, 0x61, 0x74, 0x72, 0x6f, 0x73, 0x6b, 0x61],
    ) {
        Some((FileKind::Video, "video/x-matroska"@))
    } else {
        match ftyp_brand_spec(h) {
            Some(brand) => match ftyp_image_spec(brand) {
                Some(m) => Some((FileKind::Image, m)),
                None => match ftyp_video_spec(brand) {
                    Some(m) => Some((FileKind::Video, m)),
                    None => None,
                },
            },
            None => None,
        }
    }
}

/// Whether `h` starts with the bytes `p`.
pub fn bytes_start(h: &[u8], p: &[u8]) -> (r: bool)
    ensures
        r == byte_prefix(h@, p@),
{
    if p.len() > h.len() {
        return false;
    }
    let mut i: usize = 0;
    while i < p.len()
        invariant
            i <= p@.len() <= h@.len(),
            forall|j: int| 0 <= j < i ==> h@[j] == p@[j],
        decreases p@.len() - i,
    {
        if h[i] != p[i] {
            assert(h@.take(p@.len() as int)[i as int] != p@[i as int]);
            return false;
        }
        i += 1;
    }
    assert(h@.take(p@.len() as int) =~= p@);
    true
}

/// Whether `h[lo..lo + p.len()]` equals `p`.
fn bytes_at(h: &[u8], lo: usize, p: &[u8]) -> (r: bool)
    ensures
        r == (lo + p@.len() <= h@.len() && h@.subrange(lo as int, lo + p@.len()) == p@),
{
    if lo > h.len() || p.len() > h.len() - lo {
        return false;
    }
    let n = h.len();
    let mut i: usize = 0;
    while i < p.len()
        invariant
            n == h@.len(),
            lo + p@.len() <= h@.len(),
            i <= p@.len(),
            forall|j: int| 0 <= j < i ==> h@[lo + j] == p@[j],
        decreases p@.len() - i,
    {
        assert(lo + i < n);
        if h[lo + i] != p[i] {
            assert(h@.subrange(lo as int, lo + p@.len())[i as int] != p@[i as int]);
            return false;
        }
        i += 1;
    }
    assert(h@.subrange(lo as int, lo + p@.len()) =~= p@);
    true
}

/// Whether `p` occurs in `h`.
fn bytes_contain(h: &[u8], p: &[u8]) -> (r: bool)
    ensures
        r == byte_window(h@, p@),
{
    if p.len() > h.len() {
        return false;
    }
    let last = h.len() - p.len();
    let mut i: usize = 0;
    while i <= last
        invariant
            p@.len() <= h@.len(),
            last == h@.len() - p@.len(),
            i <= last + 1,
            forall|k: int| 0 <= k < i ==> #[trigger] h@.subrange(k, k + p@.len()) != p@,
        decreases last + 1 - i,
    {
        if bytes_at(h, i, p) {
            return true;
        }
        if i == last {
            return false;
        }
        i += 1;
    }
    false
}

/// ASCII lower-casing of a byte slice.
fn lower_bytes(h: &[u8]) -> (r: Vec<u8>)
    ensures
        r@ == h@.map_values(|b: u8| lower_byte(b)),
{
    let mut r: Vec<u8> = Vec::new();
    let mut i: usize = 0;
    while i < h.len()
        invariant
            i <= h@.len(),
            r@ == h@.take(i as int).map_values(|b: u8| lower_byte(b)),
        decreases h@.len() - i,
    {
        let b = h[i];
        let l = if 65 <= b && b <= 90 {
            b + 32
        } else {
            b
        };
        r.push(l);
        i += 1;
        assert(r@ =~= h@.take(i as int).map_values(|b: u8| lower_byte(b)));
    }
    assert(h@.take(h@.len() as int) =~= h@);
    r
}

fn sniff_ftyp_brand(h: &[u8]) -> (r: Option<Vec<char>>)
    ensures
        match r {
            Some(b) => ftyp_brand_spec(h@) == Some(b@),
            None => ftyp_brand_spec(h@).is_none(),
        },
{
    if h.len() < 12 {
        return None;
    }
    let tag = vec![0x66u8, 0x74, 0x79, 0x70];
    if !bytes_at(h, 4, tag.as_slice()) {
        return None;
    }
    let raw = slice_bytes(h, 8, 12);
    let text = lossy_string(raw.as_slice());
    let lowered = to_lowercase(text.as_str());
    let cs = str_chars(lowered.as_str());
    Some(trim_chars(cs.as_slice()))
}

fn slice_bytes(h: &[u8], lo: usize, hi: usize) -> (r: Vec<u8>)
    requires
        lo <= hi <= h@.len(),
    ensures
        r@ == h@.subrange(lo as int, hi as int),
{
    let mut r: Vec<u8> = Vec::new();
    let mut i = lo;
    while i < hi
        invariant
            lo <= i <= hi <= h@.len(),
            r@ == h@.subrange(lo as int, i as int),
        decreases hi - i,
    {
        r.push(h[i]);
        i += 1;
        assert(r@ =~= h@.subrange(lo as int, i as int));
    }
    r
}

fn media(kind: FileKind, mime: &str) -> (r: Option<FileType>)
    ensures
        r matches Some(t) && t.kind == kind && t.mime_type@ == mime@,
{
    Some(FileType { kind, mime_type: owned(mime) })
}

/// The view of an optional file type.
pub open spec fn opt_type_view(o: Option<FileType>) -> Option<(FileKind, Seq<char>)> {
    match o {
        Some(t) => Some((t.kind, t.mime_type@)),
        None => None,
    }
}

/// Sniffs the kind of a file from the magic bytes of its first 512 bytes.
pub fn sniff_media_from_magic(data: &[u8]) -> (r: Option<FileType>)
    ensures
        opt_type_view(r) == sniff_spec(data@),
{
    let n = if data.len() < MEDIA_SNIFF_BYTES {
        data.len()
    } else {
        MEDIA_SNIFF_BYTES
    };
    let hv = slice_bytes(data, 0, n);
    let h = hv.as_slice();
    assert(h@ == data@.take(if data@.len() < 512 { data@.len() as int } else { 512 }));
    if bytes_start(h, vec![0x89u8, 0x50, 0x4e, 0x47, 0x0d, 0x0a, 0x1a, 0x0a].as_slice()) {
        return media(FileKind::Image, "image/png");
    }
    if bytes_start(h, vec![0xffu8, 0xd8, 0xff].as_slice()) {
        return media(FileKind::Image, "image/jpeg");
    }
    if bytes_start(h, vec![0x47u8, 0x49, 0x46, 0x38, 0x37, 0x61].as_slice()) || bytes_start(
        h,
        vec![0x47u8, 0x49, 0x46, 0x38, 0x39, 0x61].as_slice(),
    ) {
        return media(FileKind::Image, "image/gif");
    }
    if bytes_start(h, vec![0x42u8, 0x4d].as_slice()) {
        return media(FileKind::Image, "image/bmp");
    }
    if bytes_start(h, vec![0x49u8, 0x49, 0x2a, 0x00].as_slice()) || bytes_start(
        h,
        vec![0x4du8, 0x4d, 0x00, 0x2a].as_slice(),
    ) {
        return media(FileKind::Image, "image/tiff");
    }
    if bytes_start(h, vec![0x00u8, 0x00, 0x01, 0x00].as_slice()) {
        return media(FileKind::Image, "image/x-icon");
    }
    if bytes_start(h, vec![0x52u8, 0x49, 0x46, 0x46].as_slice()) && h.len() >= 12 {
        if bytes_at(h, 8, vec![0x57u8, 0x45, 0x42, 0x50].as_slice()) {
            return media(FileKind::Image, "image/webp");
        }
        if bytes_at(h, 8, vec![0x41u8, 0x56, 0x49, 0x20].as_slice()) {
            return media(FileKind::Video, "video/x-msvideo");
        }
    }
    if bytes_start(h, vec![0x46u8, 0x4c, 0x56].as_slice()) {
        return media(FileKind::Video, "video/x-flv");
    }
    if bytes_start(
        h,
        vec![
            0x30u8, 0x26, 0xb2, 0x75, 0x8e, 0x66, 0xcf, 0x11, 0xa6, 0xd9, 0x00, 0xaa, 0x00, 0x62,
            0xce, 0x6c,
        ].as_slice(),
    ) {
        return media(FileKind::Video, "video/x-ms-wmv");
    }
    if bytes_start(h, vec![0x1au8, 0x45, 0xdf, 0xa3].as_slice()) {
        let lowered = lower_bytes(h);
        if bytes_contain(lowered.as_slice(), vec![0x77u8, 0x65, 0x62, 0x6d].as_slice()) {
            return media(FileKind::Video, "video/webm");
        }
        if bytes_contain(
            lowered.as_slice(),
            vec![0x6du8, 0x61, 0x74, 0x72, 0x6f, 0x73, 0x6b, 0x61].as_slice(),
        ) {
            return media(FileKind::Video, "video/x-matroska");
        }
    }
    if let Some(brand) = sniff_ftyp_brand(h) {
        if let Some(mime) = ftyp_image_brand(brand.as_slice()) {
            return Some(FileType { kind: FileKind::Image, mime_type: mime });
        }
        if let Some(mime) = ftyp_video_brand(brand.as_slice()) {
            return Some(FileType { kind: FileKind::Video, mime_type: mime });
        }
    }
    None
}

/// The type that a (lower-cased, dot-prefixed) suffix alone suggests.
pub open spec fn media_hint_spec(s: Seq<char>) -> Option<(FileKind, Seq<char>)> {
    if text_mime_spec(s) is Some {
        Some((FileKind::Text, text_mime_spec(s).unwrap()))
    } else if image_mime_spec(s) is Some {
        Some((FileKind::Image, image_mime_spec(s).unwrap()))
    } else if video_mime_spec(s) is Some {
        Some((FileKind::Video, video_mime_spec(s).unwrap()))
    } else if extra_mime_spec(s) is Some && has_prefix(extra_mime_spec(s).unwrap(), "image/"@) {
        Some((FileKind::Image, extra_mime_spec(s).unwrap()))
    } else if extra_mime_spec(s) is Some && has_prefix(extra_mime_spec(s).unwrap(), "video/"@) {
        Some((FileKind::Video, extra_mime_spec(s).unwrap()))
    } else {
        None
    }
}

/// Whether a byte sequence holds a zero byte.
pub open spec fn has_zero(h: Seq<u8>) -> bool {
    exists|i: int| 0 <= i < h.len() && h[i] == 0
}

/// The type decided from an optional suffix and optional leading bytes.
pub open spec fn classify_spec(suffix: Option<Seq<char>>, header: Option<Seq<u8>>) -> (
    FileKind,
    Seq<char>,
) {
    let hint = match suffix {
        Some(s) => media_hint_spec(s),
        None => None,
    };
    if hint is Some && (hint.unwrap().0 == FileKind::Image || hint.unwrap().0 == FileKind::Video) {
        hint.unwrap()
    } else if header is Some && sniff_spec(header.unwrap()) is Some {
        if hint is Some && hint.unwrap().0 != sniff_spec(header.unwrap()).unwrap().0 {
            (FileKind::Unknown, Seq::empty())
        } else {
            sniff_spec(header.unwrap()).unwrap()
        }
    } else if header is Some && has_zero(header.unwrap()) {
        (FileKind::Unknown, Seq::empty())
    } else if hint is Some {
        hint.unwrap()
    } else if suffix is Some && non_text_suffix_spec(suffix.unwrap()) {
        (FileKind::Unknown, Seq::empty())
    } else {
        (FileKind::Text, "text/plain"@)
    }
}

/// A path whose lower-cased suffix names an image format is an image of that format's MIME
/// type, whatever its first bytes are.
pub proof fn lemma_image_suffixes(s: Seq<char>, header: Option<Seq<u8>>)
    ensures
        s == ".png"@ ==> classify_spec(Some(s), header) == (FileKind::Image, "image/png"@),
        s == ".jpg"@ ==> classify_spec(Some(s), header) == (FileKind::Image, "image/jpeg"@),
        s == ".jpeg"@ ==> classify_spec(Some(s), header) == (FileKind::Image, "image/jpeg"@),
        s == ".gif"@ ==> classify_spec(Some(s), header) == (FileKind::Image, "image/gif"@),
        s == ".bmp"@ ==> classify_spec(Some(s), header) == (FileKind::Image, "image/bmp"@),
        s == ".tif"@ ==> classify_spec(Some(s), header) == (FileKind::Image, "image/tiff"@),
        s == ".tiff"@ ==> classify_spec(Some(s), header) == (FileKind::Image, "image/tiff"@),
        s == ".webp"@ ==> classify_spec(Some(s), header) == (FileKind::Image, "image/webp"@),
        s == ".ico"@ ==> classify_spec(Some(s), header) == (FileKind::Image, "image/x-icon"@),
        s == ".heic"@ ==> classify_spec(Some(s), header) == (FileKind::Image, "image/heic"@),
        s == ".heif"@ ==> classify_spec(Some(s), header) == (FileKind::Image, "image/heif"@),
        s == ".avif"@ ==> classify_spec(Some(s), header) == (FileKind::Image, "image/avif"@),
        s == ".svgz"@ ==> classify_spec(Some(s), header) == (FileKind::Image, "image/svg+xml"@),
{
    if s == ".png"@ {
        reveal_strlit(".png");
        reveal_strlit(".svg");
        assert(".png"@[1] != ".svg"@[1]);
    }
    if s == ".jpg"@ {
        reveal_strlit(".jpg");
        reveal_strlit(".png");
        reveal_strlit(".svg");
        assert(".jpg"@[1] != ".svg"@[1]);
        assert(".jpg"@[1] != ".png"@[1]);
    }
    if s == ".jpeg"@ {
        reveal_strlit(".jpeg");
        reveal_strlit(".jpg");
        reveal_strlit(".png");
        reveal_strlit(".svg");
        assert(".jpeg"@.len() != ".svg"@.len());
        assert(".jpeg"@.len() != ".png"@.len());
        assert(".jpeg"@.len() != ".jpg"@.len());
    }
    if s == ".gif"@ {
        reveal_strlit(".gif");
        reveal_strlit(".jpeg");
        reveal_strlit(".jpg");
        reveal_strlit(".png");
        reveal_strlit(".svg");
        assert(".gif"@[1] != ".svg"@[1]);
        assert(".gif"@[1] != ".png"@[1]);
        assert(".gif"@[1] != ".jpg"@[1]);
        assert(".gif"@.len() != ".jpeg"@.len());
    }
    if s == ".bmp"@ {
        reveal_strlit(".bmp");
        reveal_strlit(".gif");
        reveal_strlit(".jpeg");
        reveal_strlit(".jpg");
        reveal_strlit(".png");
        reveal_strlit(".svg");
        assert(".bmp"@[1] != ".svg"@[1]);
        assert(".bmp"@[1] != ".png"@[1]);
        assert(".bmp"@[1] != ".jpg"@[1]);
        assert(".bmp"@.len() != ".jpeg"@.len());
        assert(".bmp"@[1] != ".gif"@[1]);
    }
    if s == ".tif"@ {
        reveal_strlit(".bmp");
        reveal_strlit(".gif");
        reveal_strlit(".jpeg");
        reveal_strlit(".jpg");
        reveal_strlit(".png");
        reveal_strlit(".svg");
        reveal_strlit(".tif");
        assert(".tif"@[1] != ".svg"@[1]);
        assert(".tif"@[1] != ".png"@[1]);
        assert(".tif"@[1] != ".jpg"@[1]);
        assert(".tif"@.len() != ".jpeg"@.len());
        assert(".tif"@[1] != ".gif"@[1]);
        assert(".tif"@[1] != ".bmp"@[1]);
    }
    if s == ".tiff"@ {
        reveal_strlit(".bmp");
        reveal_strlit(".gif");
        reveal_strlit(".jpeg");
        reveal_strlit(".jpg");
        reveal_strlit(".png");
        reveal_strlit(".svg");
        reveal_strlit(".tif");
        reveal_strlit(".tiff");
        assert(".tiff"@.len() != ".svg"@.len());
        assert(".tiff"@.len() != ".png"@.len());
        assert(".tiff"@.len() != ".jpg"@.len());
        assert(".tiff"@[1] != ".jpeg"@[1]);
        assert(".tiff"@.len() != ".gif"@.len());
        assert(".tiff"@.len() != ".bmp"@.len());
        assert(".tiff"@.len() != ".tif"@.len());
    }
    if s == ".webp"@ {
        reveal_strlit(".bmp");
        reveal_strlit(".gif");
        reveal_strlit(".jpeg");
        reveal_strlit(".jpg");
        reveal_strlit(".png");
        reveal_strlit(".svg");
        reveal_strlit(".tif");
        reveal_strlit(".tiff");
        reveal_strlit(".webp");
        assert(".webp"@.len() != ".svg"@.len());
        assert(".webp"@.len() != ".png"@.len());
        assert(".webp"@.len() != ".jpg"@.len());
        assert(".webp"@[1] != ".jpeg"@[1]);
        assert(".webp"@.len() != ".gif"@.len());
        assert(".webp"@.len() != ".bmp"@.len());
        assert(".webp"@.len() != ".tif"@.len());
        assert(".webp"@[1] != ".tiff"@[1]);
    }
    if s == ".ico"@ {
        reveal_strlit(".bmp");
        reveal_strlit(".gif");
        reveal_strlit(".ico");
        reveal_strlit(".jpeg");
        reveal_strlit(".jpg");
        reveal_strlit(".png");
        reveal_strlit(".svg");
        reveal_strlit(".tif");
        reveal_strlit(".tiff");
        reveal_strlit(".webp");
        assert(".ico"@[1] != ".svg"@[1]);
        assert(".ico"@[1] != ".png"@[1]);
        assert(".ico"@[1] != ".jpg"@[1]);
        assert(".ico"@.len() != ".jpeg"@.len());
        assert(".ico"@[1] != ".gif"@[1]);
        assert(".ico"@[1] != ".bmp"@[1]);
        assert(".ico"@[1] != ".tif"@[1]);
        assert(".ico"@.len() != ".tiff"@.len());
        assert(".ico"@.len() != ".webp"@.len());
    }
    if s == ".heic"@ {
        reveal_strlit(".bmp");
        reveal_strlit(".gif");
        reveal_strlit(".heic");
        reveal_strlit(".ico");
        reveal_strlit(".jpeg");
        reveal_strlit(".jpg");
        reveal_strlit(".png");
        reveal_strlit(".svg");
        reveal_strlit(".tif");
        reveal_strlit(".tiff");
        reveal_strlit(".webp");
        assert(".heic"@.len() != ".svg"@.len());
        assert(".heic"@.len() != ".png"@.len());
        assert(".heic"@.len() != ".jpg"@.len());
        assert(".heic"@[1] != ".jpeg"@[1]);
        assert(".heic"@.len() != ".gif"@.len());
        assert(".heic"@.len() != ".bmp"@.len());
        assert(".heic"@.len() != ".tif"@.len());
        assert(".heic"@[1] != ".tiff"@[1]);
        assert(".heic"@[1] != ".webp"@[1]);
        assert(".heic"@.len() != ".ico"@.len());
    }
    if s == ".heif"@ {
        reveal_strlit(".bmp");
        reveal_strlit(".gif");
        reveal_strlit(".heic");
        reveal_strlit(".heif");
        reveal_strlit(".ico");
        reveal_strlit(".jpeg");
        reveal_strlit(".jpg");
        reveal_strlit(".png");
        reveal_strlit(".svg");
        reveal_strlit(".tif");
        reveal_strlit(".tiff");
        reveal_strlit(".webp");
        assert(".heif"@.len() != ".svg"@.len());
        assert(".heif"@.len() != ".png"@.len());
        assert(".heif"@.len() != ".jpg"@.len());
        assert(".heif"@[1] != ".jpeg"@[1]);
        assert(".heif"@.len() != ".gif"@.len());
        assert(".heif"@.len() != ".bmp"@.len());
        assert(".heif"@.len() != ".tif"@.len());
        assert(".heif"@[1] != ".tiff"@[1]);
        assert(".heif"@[1] != ".webp"@[1]);
        assert(".heif"@.len() != ".ico"@.len());
        assert(".heif"@[4] != ".heic"@[4]);
    }
    if s == ".avif"@ {
        reveal_strlit(".avif");
        reveal_strlit(".bmp");
        reveal_strlit(".gif");
        reveal_strlit(".heic");
        reveal_strlit(".heif");
        reveal_strlit(".ico");
        reveal_strlit(".jpeg");
        reveal_strlit(".jpg");
        reveal_strlit(".png");
        reveal_strlit(".svg");
        reveal_strlit(".tif");
        reveal_strlit(".tiff");
        reveal_strlit(".webp");
        assert(".avif"@.len() != ".svg"@.len());
        assert(".avif"@.len() != ".png"@.len());
        assert(".avif"@.len() != ".jpg"@.len());
        assert(".avif"@[1] != ".jpeg"@[1]);
        assert(".avif"@.len() != ".gif"@.len());
        assert(".avif"@.len() != ".bmp"@.len());
        assert(".avif"@.len() != ".tif"@.len());
        assert(".avif"@[1] != ".tiff"@[1]);
        assert(".avif"@[1] != ".webp"@[1]);
        assert(".avif"@.len() != ".ico"@.len());
        assert(".avif"@[1] != ".heic"@[1]);
        assert(".avif"@[1] != ".heif"@[1]);
    }
    if s == ".svgz"@ {
        reveal_strlit(".avif");
        reveal_strlit(".bmp");
        reveal_strlit(".gif");
        reveal_strlit(".heic");
        reveal_strlit(".heif");
        reveal_strlit(".ico");
        reveal_strlit(".jpeg");
        reveal_strlit(".jpg");
        reveal_strlit(".png");
        reveal_strlit(".svg");
        reveal_strlit(".svgz");
        reveal_strlit(".tif");
        reveal_strlit(".tiff");
        reveal_strlit(".webp");
        assert(".svgz"@.len() != ".svg"@.len());
        assert(".svgz"@.len() != ".png"@.len());
        assert(".svgz"@.len() != ".jpg"@.len());
        assert(".svgz"@[1] != ".jpeg"@[1]);
        assert(".svgz"@.len() != ".gif"@.len());
        assert(".svgz"@.len() != ".bmp"@.len());
        assert(".svgz"@.len() != ".tif"@.len());
        assert(".svgz"@[1] != ".tiff"@[1]);
        assert(".svgz"@[1] != ".webp"@[1]);
        assert(".svgz"@.len() != ".ico"@.len());
        assert(".svgz"@[1] != ".heic"@[1]);
        assert(".svgz"@[1] != ".heif"@[1]);
        assert(".svgz"@[1] != ".avif"@[1]);
    }
}

/// A path whose lower-cased suffix names a video format is a video of that format's MIME type,
/// whatever its first bytes are.
pub proof fn lemma_video_suffixes(s: Seq<char>, header: Option<Seq<u8>>)
    ensures
        s == ".mp4"@ ==> classify_spec(Some(s), header) == (FileKind::Video, "video/mp4"@),
        s == ".mkv"@ ==> classify_spec(Some(s), header) == (FileKind::Video, "video/x-matroska"@),
        s == ".avi"@ ==> classify_spec(Some(s), header) == (FileKind::Video, "video/x-msvideo"@),
        s == ".mov"@ ==> classify_spec(Some(s), header) == (FileKind::Video, "video/quicktime"@),
        s == ".wmv"@ ==> classify_spec(Some(s), header) == (FileKind::Video, "video/x-ms-wmv"@),
        s == ".webm"@ ==> classify_spec(Some(s), header) == (FileKind::Video, "video/webm"@),
        s == ".m4v"@ ==> classify_spec(Some(s), header) == (FileKind::Video, "video/x-m4v"@),
        s == ".flv"@ ==> classify_spec(Some(s), header) == (FileKind::Video, "video/x-flv"@),
        s == ".3gp"@ ==> classify_spec(Some(s), header) == (FileKind::Video, "video/3gpp"@),
        s == ".3g2"@ ==> classify_spec(Some(s), header) == (FileKind::Video, "video/3gpp2"@),
{
    if s == ".mp4"@ {
        reveal_strlit(".avif");
        reveal_strlit(".bmp");
        reveal_strlit(".gif");
        reveal_strlit(".heic");
        reveal_strlit(".heif");
        reveal_strlit(".ico");
        reveal_strlit(".jpeg");
        reveal_strlit(".jpg");
        reveal_strlit(".mp4");
        reveal_strlit(".png");
        reveal_strlit(".svg");
        reveal_strlit(".svgz");
        reveal_strlit(".tif");
        reveal_strlit(".tiff");
        reveal_strlit(".webp");
        assert(".mp4"@[1] != ".svg"@[1]);
        assert(".mp4"@[1] != ".png"@[1]);
        assert(".mp4"@[1] != ".jpg"@[1]);
        assert(".mp4"@.len() != ".jpeg"@.len());
        assert(".mp4"@[1] != ".gif"@[1]);
        assert(".mp4"@[1] != ".bmp"@[1]);
        assert(".mp4"@[1] != ".tif"@[1]);
        assert(".mp4"@.len() != ".tiff"@.len());
        assert(".mp4"@.len() != ".webp"@.len());
        assert(".mp4"@[1] != ".ico"@[1]);
        assert(".mp4"@.len() != ".heic"@.len());
        assert(".mp4"@.len() != ".heif"@.len());
        assert(".mp4"@.len() != ".avif"@.len());
        assert(".mp4"@.len() != ".svgz"@.len());
    }
    if s == ".mkv"@ {
        reveal_strlit(".avif");
        reveal_strlit(".bmp");
        reveal_strlit(".gif");
        reveal_strlit(".heic");
        reveal_strlit(".heif");
        reveal_strlit(".ico");
        reveal_strlit(".jpeg");
        reveal_strlit(".jpg");
        reveal_strlit(".mkv");
        reveal_strlit(".mp4");
        reveal_strlit(".png");
        reveal_strlit(".svg");
        reveal_strlit(".svgz");
        reveal_strlit(".tif");
        reveal_strlit(".tiff");
        reveal_strlit(".webp");
        assert(".mkv"@[1] != ".svg"@[1]);
        assert(".mkv"@[1] != ".png"@[1]);
        assert(".mkv"@[1] != ".jpg"@[1]);
        assert(".mkv"@.len() != ".jpeg"@.len());
        assert(".mkv"@[1] != ".gif"@[1]);
        assert(".mkv"@[1] != ".bmp"@[1]);
        assert(".mkv"@[1] != ".tif"@[1]);
        assert(".mkv"@.len() != ".tiff"@.len());
        assert(".mkv"@.len() != ".webp"@.len());
        assert(".mkv"@[1] != ".ico"@[1]);
        assert(".mkv"@.len() != ".heic"@.len());
        assert(".mkv"@.len() != ".heif"@.len());
        assert(".mkv"@.len() != ".avif"@.len());
        assert(".mkv"@.len() != ".svgz"@.len());
        assert(".mkv"@[2] != ".mp4"@[2]);
    }
    if s == ".avi"@ {
        reveal_strlit(".avi");
        reveal_strlit(".avif");
        reveal_strlit(".bmp");
        reveal_strlit(".gif");
        reveal_strlit(".heic");
        reveal_strlit(".heif");
        reveal_strlit(".ico");
        reveal_strlit(".jpeg");
        reveal_strlit(".jpg");
        reveal_strlit(".mkv");
        reveal_strlit(".mp4");
        reveal_strlit(".png");
        reveal_strlit(".svg");
        reveal_strlit(".svgz");
        reveal_strlit(".tif");
        reveal_strlit(".tiff");
        reveal_strlit(".webp");
        assert(".avi"@[1] != ".svg"@[1]);
        assert(".avi"@[1] != ".png"@[1]);
        assert(".avi"@[1] != ".jpg"@[1]);
        assert(".avi"@.len() != ".jpeg"@.len());
        assert(".avi"@[1] != ".gif"@[1]);
        assert(".avi"@[1] != ".bmp"@[1]);
        assert(".avi"@[1] != ".tif"@[1]);
        assert(".avi"@.len() != ".tiff"@.len());
        assert(".avi"@.len() != ".webp"@.len());
        assert(".avi"@[1] != ".ico"@[1]);
        assert(".avi"@.len() != ".heic"@.len());
        assert(".avi"@.len() != ".heif"@.len());
        assert(".avi"@.len() != ".avif"@.len());
        assert(".avi"@.len() != ".svgz"@.len());
        assert(".avi"@[1] != ".mp4"@[1]);
        assert(".avi"@[1] != ".mkv"@[1]);
    }
    if s == ".mov"@ {
        reveal_strlit(".avi");
        reveal_strlit(".avif");
        reveal_strlit(".bmp");
        reveal_strlit(".gif");
        reveal_strlit(".heic");
        reveal_strlit(".heif");
        reveal_strlit(".ico");
        reveal_strlit(".jpeg");
        reveal_strlit(".jpg");
        reveal_strlit(".mkv");
        reveal_strlit(".mov");
        reveal_strlit(".mp4");
        reveal_strlit(".png");
        reveal_strlit(".svg");
        reveal_strlit(".svgz");
        reveal_strlit(".tif");
        reveal_strlit(".tiff");
        reveal_strlit(".webp");
        assert(".mov"@[1] != ".svg"@[1]);
        assert(".mov"@[1] != ".png"@[1]);
        assert(".mov"@[1] != ".jpg"@[1]);
        assert(".mov"@.len() != ".jpeg"@.len());
        assert(".mov"@[1] != ".gif"@[1]);
        assert(".mov"@[1] != ".bmp"@[1]);
        assert(".mov"@[1] != ".tif"@[1]);
        assert(".mov"@.len() != ".tiff"@.len());
        assert(".mov"@.len() != ".webp"@.len());
        assert(".mov"@[1] != ".ico"@[1]);
        assert(".mov"@.len() != ".heic"@.len());
        assert(".mov"@.len() != ".heif"@.len());
        assert(".mov"@.len() != ".avif"@.len());
        assert(".mov"@.len() != ".svgz"@.len());
        assert(".mov"@[2] != ".mp4"@[2]);
        assert(".mov"@[2] != ".mkv"@[2]);
        assert(".mov"@[1] != ".avi"@[1]);
    }
    if s == ".wmv"@ {
        reveal_strlit(".avi");
        reveal_strlit(".avif");
        reveal_strlit(".bmp");
        reveal_strlit(".gif");
        reveal_strlit(".heic");
        reveal_strlit(".heif");
        reveal_strlit(".ico");
        reveal_strlit(".jpeg");
        reveal_strlit(".jpg");
        reveal_strlit(".mkv");
        reveal_strlit(".mov");
        reveal_strlit(".mp4");
        reveal_strlit(".png");
        reveal_strlit(".svg");
        reveal_strlit(".svgz");
        reveal_strlit(".tif");
        reveal_strlit(".tiff");
        reveal_strlit(".webp");
        reveal_strlit(".wmv");
        assert(".wmv"@[1] != ".svg"@[1]);
        assert(".wmv"@[1] != ".png"@[1]);
        assert(".wmv"@[1] != ".jpg"@[1]);
        assert(".wmv"@.len() != ".jpeg"@.len());
        assert(".wmv"@[1] != ".gif"@[1]);
        assert(".wmv"@[1] != ".bmp"@[1]);
        assert(".wmv"@[1] != ".tif"@[1]);
        assert(".wmv"@.len() != ".tiff"@.len());
        assert(".wmv"@.len() != ".webp"@.len());
        assert(".wmv"@[1] != ".ico"@[1]);
        assert(".wmv"@.len() != ".heic"@.len());
        assert(".wmv"@.len() != ".heif"@.len());
        assert(".wmv"@.len() != ".avif"@.len());
        assert(".wmv"@.len() != ".svgz"@.len());
        assert(".wmv"@[1] != ".mp4"@[1]);
        assert(".wmv"@[1] != ".mkv"@[1]);
        assert(".wmv"@[1] != ".avi"@[1]);
        assert(".wmv"@[1] != ".mov"@[1]);
    }
    if s == ".webm"@ {
        reveal_strlit(".avi");
        reveal_strlit(".avif");
        reveal_strlit(".bmp");
        reveal_strlit(".gif");
        reveal_strlit(".heic");
        reveal_strlit(".heif");
        reveal_strlit(".ico");
        reveal_strlit(".jpeg");
        reveal_strlit(".jpg");
        reveal_strlit(".mkv");
        reveal_strlit(".mov");
        reveal_strlit(".mp4");
        reveal_strlit(".png");
        reveal_strlit(".svg");
        reveal_strlit(".svgz");
        reveal_strlit(".tif");
        reveal_strlit(".tiff");
        reveal_strlit(".webm");
        reveal_strlit(".webp");
        reveal_strlit(".wmv");
        assert(".webm"@.len() != ".svg"@.len());
        assert(".webm"@.len() != ".png"@.len());
        assert(".webm"@.len() != ".jpg"@.len());
        assert(".webm"@[1] != ".jpeg"@[1]);
        assert(".webm"@.len() != ".gif"@.len());
        assert(".webm"@.len() != ".bmp"@.len());
        assert(".webm"@.len() != ".tif"@.len());
        assert(".webm"@[1] != ".tiff"@[1]);
        assert(".webm"@[4] != ".webp"@[4]);
        assert(".webm"@.len() != ".ico"@.len());
        assert(".webm"@[1] != ".heic"@[1]);
        assert(".webm"@[1] != ".heif"@[1]);
        assert(".webm"@[1] != ".avif"@[1]);
        assert(".webm"@[1] != ".svgz"@[1]);
        assert(".webm"@.len() != ".mp4"@.len());
        assert(".webm"@.len() != ".mkv"@.len());
        assert(".webm"@.len() != ".avi"@.len());
        assert(".webm"@.len() != ".mov"@.len());
        assert(".webm"@.len() != ".wmv"@.len());
    }
    if s == ".m4v"@ {
        reveal_strlit(".avi");
        reveal_strlit(".avif");
        reveal_strlit(".bmp");
        reveal_strlit(".gif");
        reveal_strlit(".heic");
        reveal_strlit(".heif");
        reveal_strlit(".ico");
        reveal_strlit(".jpeg");
        reveal_strlit(".jpg");
        reveal_strlit(".m4v");
        reveal_strlit(".mkv");
        reveal_strlit(".mov");
        reveal_strlit(".mp4");
        reveal_strlit(".png");
        reveal_strlit(".svg");
        reveal_strlit(".svgz");
        reveal_strlit(".tif");
        reveal_strlit(".tiff");
        reveal_strlit(".webm");
        reveal_strlit(".webp");
        reveal_strlit(".wmv");
        assert(".m4v"@[1] != ".svg"@[1]);
        assert(".m4v"@[1] != ".png"@[1]);
        assert(".m4v"@[1] != ".jpg"@[1]);
        assert(".m4v"@.len() != ".jpeg"@.len());
        assert(".m4v"@[1] != ".gif"@[1]);
        assert(".m4v"@[1] != ".bmp"@[1]);
        assert(".m4v"@[1] != ".tif"@[1]);
        assert(".m4v"@.len() != ".tiff"@.len());
        assert(".m4v"@.len() != ".webp"@.len());
        assert(".m4v"@[1] != ".ico"@[1]);
        assert(".m4v"@.len() != ".heic"@.len());
        assert(".m4v"@.len() != ".heif"@.len());
        assert(".m4v"@.len() != ".avif"@.len());
        assert(".m4v"@.len() != ".svgz"@.len());
        assert(".m4v"@[2] != ".mp4"@[2]);
        assert(".m4v"@[2] != ".mkv"@[2]);
        assert(".m4v"@[1] != ".avi"@[1]);
        assert(".m4v"@[2] != ".mov"@[2]);
        assert(".m4v"@[1] != ".wmv"@[1]);
        assert(".m4v"@.len() != ".webm"@.len());
    }
    if s == ".flv"@ {
        reveal_strlit(".avi");
        reveal_strlit(".avif");
        reveal_strlit(".bmp");
        reveal_strlit(".flv");
        reveal_strlit(".gif");
        reveal_strlit(".heic");
        reveal_strlit(".heif");
        reveal_strlit(".ico");
        reveal_strlit(".jpeg");
        reveal_strlit(".jpg");
        reveal_strlit(".m4v");
        reveal_strlit(".mkv");
        reveal_strlit(".mov");
        reveal_strlit(".mp4");
        reveal_strlit(".png");
        reveal_strlit(".svg");
        reveal_strlit(".svgz");
        reveal_strlit(".tif");
        reveal_strlit(".tiff");
        reveal_strlit(".webm");
        reveal_strlit(".webp");
        reveal_strlit(".wmv");
        assert(".flv"@[1] != ".svg"@[1]);
        assert(".flv"@[1] != ".png"@[1]);
        assert(".flv"@[1] != ".jpg"@[1]);
        assert(".flv"@.len() != ".jpeg"@.len());
        assert(".flv"@[1] != ".gif"@[1]);
        assert(".flv"@[1] != ".bmp"@[1]);
        assert(".flv"@[1] != ".tif"@[1]);
        assert(".flv"@.len() != ".tiff"@.len());
        assert(".flv"@.len() != ".webp"@.len());
        assert(".flv"@[1] != ".ico"@[1]);
        assert(".flv"@.len() != ".heic"@.len());
        assert(".flv"@.len() != ".heif"@.len());
        assert(".flv"@.len() != ".avif"@.len());
        assert(".flv"@.len() != ".svgz"@.len());
        assert(".flv"@[1] != ".mp4"@[1]);
        assert(".flv"@[1] != ".mkv"@[1]);
        assert(".flv"@[1] != ".avi"@[1]);
        assert(".flv"@[1] != ".mov"@[1]);
        assert(".flv"@[1] != ".wmv"@[1]);
        assert(".flv"@.len() != ".webm"@.len());
        assert(".flv"@[1] != ".m4v"@[1]);
    }
    if s == ".3gp"@ {
        reveal_strlit(".3gp");
        reveal_strlit(".avi");
        reveal_strlit(".avif");
        reveal_strlit(".bmp");
        reveal_strlit(".flv");
        reveal_strlit(".gif");
        reveal_strlit(".heic");
        reveal_strlit(".heif");
        reveal_strlit(".ico");
        reveal_strlit(".jpeg");
        reveal_strlit(".jpg");
        reveal_strlit(".m4v");
        reveal_strlit(".mkv");
        reveal_strlit(".mov");
        reveal_strlit(".mp4");
        reveal_strlit(".png");
        reveal_strlit(".svg");
        reveal_strlit(".svgz");
        reveal_strlit(".tif");
        reveal_strlit(".tiff");
        reveal_strlit(".webm");
        reveal_strlit(".webp");
        reveal_strlit(".wmv");
        assert(".3gp"@[1] != ".svg"@[1]);
        assert(".3gp"@[1] != ".png"@[1]);
        assert(".3gp"@[1] != ".jpg"@[1]);
        assert(".3gp"@.len() != ".jpeg"@.len());
        assert(".3gp"@[1] != ".gif"@[1]);
        assert(".3gp"@[1] != ".bmp"@[1]);
        assert(".3gp"@[1] != ".tif"@[1]);
        assert(".3gp"@.len() != ".tiff"@.len());
        assert(".3gp"@.len() != ".webp"@.len());
        assert(".3gp"@[1] != ".ico"@[1]);
        assert(".3gp"@.len() != ".heic"@.len());
        assert(".3gp"@.len() != ".heif"@.len());
        assert(".3gp"@.len() != ".avif"@.len());
        assert(".3gp"@.len() != ".svgz"@.len());
        assert(".3gp"@[1] != ".mp4"@[1]);
        assert(".3gp"@[1] != ".mkv"@[1]);
        assert(".3gp"@[1] != ".avi"@[1]);
        assert(".3gp"@[1] != ".mov"@[1]);
        assert(".3gp"@[1] != ".wmv"@[1]);
        assert(".3gp"@.len() != ".webm"@.len());
        assert(".3gp"@[1] != ".m4v"@[1]);
        assert(".3gp"@[1] != ".flv"@[1]);
    }
    if s == ".3g2"@ {
        reveal_strlit(".3g2");
        reveal_strlit(".3gp");
        reveal_strlit(".avi");
        reveal_strlit(".avif");
        reveal_strlit(".bmp");
        reveal_strlit(".flv");
        reveal_strlit(".gif");
        reveal_strlit(".heic");
        reveal_strlit(".heif");
        reveal_strlit(".ico");
        reveal_strlit(".jpeg");
        reveal_strlit(".jpg");
        reveal_strlit(".m4v");
        reveal_strlit(".mkv");
        reveal_strlit(".mov");
        reveal_strlit(".mp4");
        reveal_strlit(".png");
        reveal_strlit(".svg");
        reveal_strlit(".svgz");
        reveal_strlit(".tif");
        reveal_strlit(".tiff");
        reveal_strlit(".webm");
        reveal_strlit(".webp");
        reveal_strlit(".wmv");
        assert(".3g2"@[1] != ".svg"@[1]);
        assert(".3g2"@[1] != ".png"@[1]);
        assert(".3g2"@[1] != ".jpg"@[1]);
        assert(".3g2"@.len() != ".jpeg"@.len());
        assert(".3g2"@[1] != ".gif"@[1]);
        assert(".3g2"@[1] != ".bmp"@[1]);
        assert(".3g2"@[1] != ".tif"@[1]);
        assert(".3g2"@.len() != ".tiff"@.len());
        assert(".3g2"@.len() != ".webp"@.len());
        assert(".3g2"@[1] != ".ico"@[1]);
        assert(".3g2"@.len() != ".heic"@.len());
        assert(".3g2"@.len() != ".heif"@.len());
        assert(".3g2"@.len() != ".avif"@.len());
        assert(".3g2"@.len() != ".svgz"@.len());
        assert(".3g2"@[1] != ".mp4"@[1]);
        assert(".3g2"@[1] != ".mkv"@[1]);
        assert(".3g2"@[1] != ".avi"@[1]);
        assert(".3g2"@[1] != ".mov"@[1]);
        assert(".3g2"@[1] != ".wmv"@[1]);
        assert(".3g2"@.len() != ".webm"@.len());
        assert(".3g2"@[1] != ".m4v"@[1]);
        assert(".3g2"@[1] != ".flv"@[1]);
        assert(".3g2"@[3] != ".3gp"@[3]);
    }
}

/// An SVG file, known by its suffix alone, is text of the SVG MIME type; a file with neither a
/// suffix nor read bytes is plain text.
pub proof fn lemma_text_without_header(s: Seq<char>)
    ensures
        s == ".svg"@ ==> classify_spec(Some(s), None) == (FileKind::Text, "image/svg+xml"@),
        classify_spec(None, None) == (FileKind::Text, "text/plain"@),
{
}

fn media_hint(s: &[char]) -> (r: Option<FileType>)
    ensures
        opt_type_view(r) == media_hint_spec(s@),
{
    if let Some(m) = text_mime_by_suffix(s) {
        return Some(FileType { kind: FileKind::Text, mime_type: m });
    }
    if let Some(m) = image_mime_by_suffix(s) {
        return Some(FileType { kind: FileKind::Image, mime_type: m });
    }
    if let Some(m) = video_mime_by_suffix(s) {
        return Some(FileType { kind: FileKind::Video, mime_type: m });
    }
    if let Some(m) = extra_mime_type(s) {
        let mc = str_chars(m.as_str());
        if starts_with_str(mc.as_slice(), "image/") {
            return Some(FileType { kind: FileKind::Image, mime_type: m });
        }
        if starts_with_str(mc.as_slice(), "video/") {
            return Some(FileType { kind: FileKind::Video, mime_type: m });
        }
    }
    None
}

fn contains_zero(h: &[u8]) -> (r: bool)
    ensures
        r == has_zero(h@),
{
    let mut i: usize = 0;
    while i < h.len()
        invariant
            i <= h@.len(),
            forall|j: int| 0 <= j < i ==> h@[j] != 0,
        decreases h@.len() - i,
    {
        if h[i] == 0 {
            return true;
        }
        i += 1;
    }
    false
}

fn unknown_type() -> (r: FileType)
    ensures
        r.kind == FileKind::Unknown,
        r.mime_type@ == Seq::<char>::empty(),
{
    FileType { kind: FileKind::Unknown, mime_type: String::new() }
}

/// Decides the type of a file from its lower-cased suffix (with the leading dot) and, when
/// available, its first bytes.
pub fn classify_file_type(suffix: Option<&str>, header: Option<&[u8]>) -> (r: FileType)
    ensures
        (r.kind, r.mime_type@) == classify_spec(
            match suffix {
                Some(s) => Some(s@),
                None => None,
            },
            match header {
                Some(h) => Some(h@),
                None => None,
            },
        ),
{
    let suffix_chars: Option<Vec<char>> = match suffix {
        Some(s) => Some(str_chars(s)),
        None => None,
    };
    let hint: Option<FileType> = match &suffix_chars {
        Some(s) => media_hint(s.as_slice()),
        None => None,
    };
    if let Some(h) = &hint {
        if h.kind == FileKind::Image || h.kind == FileKind::Video {
            return FileType { kind: h.kind, mime_type: h.mime_type.clone() };
        }
    }
    if let Some(bytes) = header {
        if let Some(sniffed) = sniff_media_from_magic(bytes) {
            if let Some(h) = &hint {
                if h.kind != sniffed.kind {
                    return unknown_type();
                }
            }
            return sniffed;
        }
        if contains_zero(bytes) {
            return unknown_type();
        }
    }
    if let Some(h) = hint {
        return h;
    }
    if let Some(s) = &suffix_chars {
        if is_non_text_suffix(s.as_slice()) {
            return unknown_type();
        }
    }
    FileType { kind: FileKind::Text, mime_type: owned("text/plain") }
}

/// What `Path::extension` returns for a path: the part of the file name after its last dot,
/// unless the name has no dot or only a leading one.
pub uninterp spec fn path_extension(path: Seq<char>) -> Option<Seq<char>>;

/// `Path::extension`, converted to a string; the result is named. Where the path ends in a file
/// name and uses `/` alone, the documentation states it: the text after the name's last `.`,
/// none when the name has no `.` or only a leading one.
#[verifier::external_body]
fn extension_of(path: &str) -> (r: Option<String>)
    ensures
        opt_view(r) == path_extension(path@),
        slash_only(path@) && is_plain_name(last_segment(path@)) ==> opt_view(r) == name_extension(last_segment(path@)),
{
    std::path::Path::new(path).extension().map(|s| s.to_string_lossy().to_string())
}

/// The lower-cased, dot-prefixed suffix of a path, if it has one.
pub open spec fn suffix_of(path: Seq<char>) -> Option<Seq<char>> {
    match path_extension(path) {
        Some(e) => Some(seq!['.'] + unicode_lowercase(e)),
        None => None,
    }
}

/// Decides the type of the file at `path`, given its first bytes when they have been read.
pub fn detect_file_type(path: &str, header: Option<&[u8]>) -> (r: FileType)
    ensures
        (path_extension(path@) matches Some(e) && all_ascii(e)) ==> suffix_of(path@) == Some(
            seq!['.'] + ascii_lower_seq(path_extension(path@)->Some_0),
        ),
        (r.kind, r.mime_type@) == classify_spec(
            suffix_of(path@),
            match header {
                Some(h) => Some(h@),
                None => None,
            },
        ),
{
    let suffix: Option<String> = match extension_of(path) {
        Some(ext) => {
            let lowered = to_lowercase(ext.as_str());
            let mut s = owned(".");
            proof {
                reveal_strlit(".");
            }
            push_str(&mut s, lowered.as_str());
            assert(s@ =~= seq!['.'] + lowered@);
            Some(s)
        },
        None => None,
    };
    match suffix {
        Some(s) => classify_file_type(Some(s.as_str()), header),
        None => classify_file_type(None, header),
    }
}

} // verus!
