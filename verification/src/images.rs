//! Images in messages: data URLs, files and addresses on the web.

use vstd::prelude::*;
use vstd::string::*;

use base64::Engine;
use std::collections::hash_map::DefaultHasher;
use std::hash::{Hash, Hasher};

use crate::json;
use crate::json::{Json, JsonView};
use crate::session_state;
use crate::str_map::StrMap;
use crate::text;
use crate::text::{
    cat, cat3, decimal_text, ends_with, hex_text, split_once_char, split_once_text, starts_with, str_eq,
    strip_prefix, to_ascii_lowercase, trim, trim_some,
};

verus! {

// ---------------------------------------------------------------------------
// Base64
// ---------------------------------------------------------------------------

/// Whether so many bytes have a base64 notation that memory can hold.
pub open spec fn encodable(n: nat) -> bool {
    4 * ((n + 2) / 3) <= isize::MAX
}

/// Whether so many bytes have a base64 notation that memory can hold.
pub fn is_encodable(n: usize) -> (r: bool)
    ensures
        r == encodable(n as nat),
{
    let groups: usize = if n % 3 > 0 {
        n / 3 + 1
    } else {
        n / 3
    };
    groups <= (isize::MAX as usize) / 4
}

/// The bytes in the base64 notation with the standard alphabet and padding.
pub uninterp spec fn base64_text(bytes: Seq<u8>) -> Seq<char>;

/// What the base64 notation with the standard alphabet and padding denotes; nothing where the text
/// is no such notation.
pub uninterp spec fn base64_bytes(s: Seq<char>) -> Option<Seq<u8>>;

/// The bytes in the base64 notation with the alphabet for addresses and without padding.
pub uninterp spec fn base64_url_text(bytes: Seq<u8>) -> Seq<char>;

/// `base64::engine::general_purpose::STANDARD.encode`. Its notation denotes the bytes again.
#[verifier::external_body]
pub(crate) fn base64_encode(bytes: &Vec<u8>) -> (r: String)
    requires
        encodable(bytes@.len()),
    ensures
        r@ == base64_text(bytes@),
        base64_bytes(r@) == Some(bytes@),
{
    base64::engine::general_purpose::STANDARD.encode(bytes)
}

/// `base64::engine::general_purpose::STANDARD.decode`.
#[verifier::external_body]
pub(crate) fn base64_decode(s: &str) -> (r: Option<Vec<u8>>)
    ensures
        match r {
            Some(bytes) => base64_bytes(s@) == Some(bytes@),
            None => base64_bytes(s@) is None,
        },
{
    base64::engine::general_purpose::STANDARD.decode(s).ok()
}

/// `base64::engine::general_purpose::URL_SAFE_NO_PAD.encode`. Other bytes never have the same
/// notation: it denotes the bytes.
#[verifier::external_body]
pub(crate) fn base64_url_encode(bytes: &[u8]) -> (r: String)
    requires
        encodable(bytes@.len()),
    ensures
        r@ == base64_url_text(bytes@),
        forall|other: Seq<u8>|
            encodable(other.len()) && #[trigger] base64_url_text(other) == r@ ==> other == bytes@,
{
    base64::engine::general_purpose::URL_SAFE_NO_PAD.encode(bytes)
}

// ---------------------------------------------------------------------------
// Media types
// ---------------------------------------------------------------------------

/// The extension of a file that holds an image of the given media type.
pub open spec fn extension_of(mime: Seq<char>) -> Seq<char> {
    let m = text::ascii_lowered(text::trim_of(mime));
    if m == "image/png"@ {
        "png"@
    } else if m == "image/jpeg"@ {
        "jpg"@
    } else if m == "image/gif"@ {
        "gif"@
    } else if m == "image/webp"@ {
        "webp"@
    } else if m == "image/svg+xml"@ {
        "svg"@
    } else if m == "image/bmp"@ {
        "bmp"@
    } else if m == "image/tiff"@ {
        "tiff"@
    } else {
        "bin"@
    }
}

/// The extension of a file that holds an image of the given media type.
pub fn extension_from_mime(mime: &str) -> (r: &'static str)
    ensures
        r@ == extension_of(mime@),
{
    let lowered: String = to_ascii_lowercase(trim(mime));
    let m: &str = lowered.as_str();
    if str_eq(m, "image/png") {
        "png"
    } else if str_eq(m, "image/jpeg") {
        "jpg"
    } else if str_eq(m, "image/gif") {
        "gif"
    } else if str_eq(m, "image/webp") {
        "webp"
    } else if str_eq(m, "image/svg+xml") {
        "svg"
    } else if str_eq(m, "image/bmp") {
        "bmp"
    } else if str_eq(m, "image/tiff") {
        "tiff"
    } else {
        "bin"
    }
}

/// The media type of a file by its extension.
pub open spec fn mime_of(path: Seq<char>) -> Seq<char> {
    let p = text::ascii_lowered(path);
    if text::has_suffix(p, ".png"@) {
        "image/png"@
    } else if text::has_suffix(p, ".jpg"@) || text::has_suffix(p, ".jpeg"@) {
        "image/jpeg"@
    } else if text::has_suffix(p, ".gif"@) {
        "image/gif"@
    } else if text::has_suffix(p, ".webp"@) {
        "image/webp"@
    } else if text::has_suffix(p, ".svg"@) {
        "image/svg+xml"@
    } else {
        "application/octet-stream"@
    }
}

/// The media type of a file by its extension.
pub fn mime_from_extension(path: &str) -> (r: &'static str)
    ensures
        r@ == mime_of(path@),
{
    let lowered: String = to_ascii_lowercase(path);
    let p: &str = lowered.as_str();
    if ends_with(p, ".png") {
        "image/png"
    } else if ends_with(p, ".jpg") || ends_with(p, ".jpeg") {
        "image/jpeg"
    } else if ends_with(p, ".gif") {
        "image/gif"
    } else if ends_with(p, ".webp") {
        "image/webp"
    } else if ends_with(p, ".svg") {
        "image/svg+xml"
    } else {
        "application/octet-stream"
    }
}

// ---------------------------------------------------------------------------
// Parts that carry a file
// ---------------------------------------------------------------------------

/// The part that carries a file.
pub open spec fn file_part(mime: Seq<char>, url: Seq<char>, filename: Seq<char>) -> JsonView {
    json::obj().and("type"@, JsonView::Text("file"@)).and("mime"@, JsonView::Text(mime)).and(
        "url"@,
        JsonView::Text(url),
    ).and("filename"@, JsonView::Text(filename))
}

/// The part that carries a file.
pub fn build_file_part(mime: &str, url: &str, filename: &str) -> (r: Json)
    ensures
        r@ == file_part(mime@, url@, filename@),
{
    Json::obj().and("type", Json::text("file")).and("mime", Json::text(mime)).and("url", Json::text(url)).and(
        "filename",
        Json::text(filename),
    )
}

/// The data URL with the given media type and base64 notation.
pub open spec fn data_url(mime: Seq<char>, encoded: Seq<char>) -> Seq<char> {
    "data:"@ + mime + ";base64,"@ + encoded
}

/// The data URL with the given media type and base64 notation.
pub fn build_data_url(mime: &str, encoded: &str) -> (r: String)
    ensures
        r@ == data_url(mime@, encoded@),
{
    cat(cat3("data:", mime, ";base64,").as_str(), encoded)
}

/// The media type and the base64 notation in a data URL.
pub open spec fn data_url_parts(url: Seq<char>) -> Option<(Seq<char>, Seq<char>)> {
    match text::after_prefix(url, "data:"@) {
        Some(rest) => text::split_text_of(rest, ";base64,"@),
        None => None,
    }
}

/// The media type and the base64 notation in a data URL.
pub fn split_data_url<'a>(url: &'a str) -> (r: Option<(&'a str, &'a str)>)
    ensures
        text::pair_view(r) == data_url_parts(url@),
{
    match strip_prefix(url, "data:") {
        Some(rest) => split_once_text(rest, ";base64,"),
        None => None,
    }
}

// ---------------------------------------------------------------------------
// Images that are kept in files
// ---------------------------------------------------------------------------

/// The image in a data URL: its media type and its bytes.
pub open spec fn data_image(url: Seq<char>) -> Option<(Seq<char>, Seq<u8>)> {
    match data_url_parts(text::trim_of(url)) {
        Some((mime, encoded)) => if text::has_prefix(mime, "image/"@) {
            match base64_bytes(encoded) {
                Some(bytes) => Some((mime, bytes)),
                None => None,
            }
        } else {
            None
        },
        None => None,
    }
}

/// The name of the file that keeps an image: a digest of the image and the extension of its media
/// type.
pub open spec fn image_file_name(digest: u64, mime: Seq<char>) -> Seq<char> {
    text::hex_digits(digest as nat, 16) + "."@ + extension_of(mime)
}

/// Whether a name is that of a file that keeps an image of the given media type, for some digest.
pub open spec fn names_image(name: Seq<char>, mime: Seq<char>) -> bool {
    exists|digest: u64| name == #[trigger] image_file_name(digest, mime)
}

/// The name of the file that keeps an image.
pub fn build_image_file_name(digest: u64, mime: &str) -> (r: String)
    ensures
        r@ == image_file_name(digest, mime@),
{
    cat3(hex_text(digest, 16).as_str(), ".", extension_from_mime(mime))
}

/// The number of values that so many hexadecimal digits can tell apart.
spec fn hex_range(width: nat) -> nat
    decreases width,
{
    if width == 0 {
        1
    } else {
        16 * hex_range((width - 1) as nat)
    }
}

proof fn lemma_hex_digits_tell(a: nat, b: nat, width: nat)
    requires
        a < hex_range(width),
        b < hex_range(width),
    ensures
        text::hex_digits(a, width).len() == width,
        text::hex_digits(a, width) == text::hex_digits(b, width) ==> a == b,
    decreases width,
{
    if width > 0 {
        let shorter = (width - 1) as nat;
        lemma_hex_digits_tell(a / 16, b / 16, shorter);
        lemma_hex_digits_tell(b / 16, a / 16, shorter);
        let x = text::hex_digits(a, width);
        let y = text::hex_digits(b, width);
        if x == y {
            assert(x.drop_last() =~= text::hex_digits(a / 16, shorter));
            assert(y.drop_last() =~= text::hex_digits(b / 16, shorter));
            assert(x.last() == text::hex_digit(a % 16) && y.last() == text::hex_digit(b % 16));
        }
    }
}

/// Two files have the same name exactly where the digests are the same and the media types have
/// the same extension: two digests give two names, and the same digest and media type one.
pub proof fn law_digest_tells_image_files_apart(a: u64, b: u64, mime: Seq<char>, other_mime: Seq<char>)
    ensures
        image_file_name(a, mime) == image_file_name(b, other_mime) <==> a == b && extension_of(mime) == extension_of(
            other_mime,
        ),
{
    reveal_with_fuel(hex_range, 17);
    lemma_hex_digits_tell(a as nat, b as nat, 16);
    lemma_hex_digits_tell(b as nat, a as nat, 16);
    reveal_strlit(".");
    let x = image_file_name(a, mime);
    let y = image_file_name(b, other_mime);
    assert(x.take(16) =~= text::hex_digits(a as nat, 16));
    assert(y.take(16) =~= text::hex_digits(b as nat, 16));
    assert(x.skip(17) =~= extension_of(mime));
    assert(y.skip(17) =~= extension_of(other_mime));
}

/// `str::hash`, into a hasher of std. What it writes is left open: it differs between versions of
/// std.
#[verifier::external_body]
fn hash_str(s: &str, hasher: &mut DefaultHasher) {
    s.hash(hasher)
}

/// `Vec::<u8>::hash`, into a hasher of std. What it writes is left open: it differs between
/// machines and versions of std.
#[verifier::external_body]
fn hash_bytes(bytes: &Vec<u8>, hasher: &mut DefaultHasher) {
    bytes.hash(hasher)
}

/// A file that keeps an image.
pub struct ImageFile {
    pub name: String,
    pub bytes: Vec<u8>,
}

/// The file that keeps the image of a data URL; nothing where the URL holds no image. The digest
/// in its name is left open.
pub fn data_image_file(url: &str) -> (r: Option<ImageFile>)
    ensures
        match r {
            Some(file) => {
                &&& data_image(url@) is Some
                &&& file.bytes@ == (data_image(url@)->0).1
                &&& names_image(file.name@, (data_image(url@)->0).0)
            },
            None => data_image(url@) is None,
        },
{
    match split_data_url(trim(url)) {
        Some((mime, encoded)) => if starts_with(mime, "image/") {
            match base64_decode(encoded) {
                Some(bytes) => {
                    let mut hasher: DefaultHasher = DefaultHasher::new();
                    hash_str(mime, &mut hasher);
                    hash_bytes(&bytes, &mut hasher);
                    let digest: u64 = hasher.finish();
                    let name: String = build_image_file_name(digest, mime);
                    assert(data_image(url@) == Some((mime@, bytes@)));
                    assert(names_image(name@, mime@));
                    Some(ImageFile { name, bytes })
                },
                None => None,
            }
        } else {
            None
        },
        None => None,
    }
}

/// How an image is handed to the view: by the path of the file that keeps it, where it is a data
/// URL that was stored, or else by its address as it stands.
pub open spec fn image_value(raw: Seq<char>, stored: Map<Seq<char>, Seq<char>>) -> Seq<char> {
    let trimmed = text::trim_of(raw);
    if text::has_prefix(trimmed, "data:image/"@) && stored.contains_key(trimmed) {
        stored[trimmed]
    } else {
        trimmed
    }
}

/// How an image is handed to the view. `stored` holds the paths of the files that keep images, by
/// data URL.
pub fn frontend_image_value(raw: &str, stored: &StrMap<String>) -> (r: String)
    ensures
        r@ == image_value(raw@, stored@),
{
    let trimmed: &str = trim(raw);
    if starts_with(trimmed, "data:image/") {
        if let Some(path) = stored.get(trimmed) {
            return path.clone();
        }
    }
    trimmed.to_owned()
}

/// The same image is shown alike on every call, whatever white space stands around it, as long as
/// the same files are kept: by the path of its file where it is a data URL that has one, and as it
/// stands otherwise. It is not shown as a data URL where its file has a path.
pub proof fn law_same_image_is_shown_alike(
    raw: Seq<char>,
    other: Seq<char>,
    stored: Map<Seq<char>, Seq<char>>,
    other_stored: Map<Seq<char>, Seq<char>>,
)
    requires
        text::trim_of(raw) == text::trim_of(other),
        session_state::lookup(stored, text::trim_of(raw)) == session_state::lookup(
            other_stored,
            text::trim_of(raw),
        ),
    ensures
        image_value(raw, stored) == image_value(other, other_stored),
        ({
            let trimmed = text::trim_of(raw);
            let is_data = text::has_prefix(trimmed, "data:image/"@);
            &&& !is_data || !stored.contains_key(trimmed) ==> image_value(raw, stored) == trimmed
            &&& is_data && stored.contains_key(trimmed) ==> image_value(raw, stored) == stored[trimmed]
            &&& is_data && stored.contains_key(trimmed) && !text::has_prefix(stored[trimmed], "data:"@)
                ==> !text::has_prefix(image_value(raw, stored), "data:"@)
        }),
{
}

/// Whether an image is a data URL that is to be kept in a file.
pub open spec fn holds_image(raw: Seq<char>) -> bool {
    text::has_prefix(text::trim_of(raw), "data:image/"@)
}

/// Whether an image is a data URL that is to be kept in a file.
pub fn is_data_image(raw: &str) -> (r: bool)
    ensures
        r == holds_image(raw@),
{
    starts_with(trim(raw), "data:image/")
}

// ---------------------------------------------------------------------------
// Addresses of hosts
// ---------------------------------------------------------------------------

/// An address of a host.
pub enum HostAddress {
    V4([u8; 4]),
    V6([u16; 8]),
}

/// Whether an address of the fourth version is of a private network.
pub open spec fn is_private_v4(o: Seq<u8>) -> bool {
    o[0] == 10 || (o[0] == 172 && 16 <= o[1] <= 31) || (o[0] == 192 && o[1] == 168)
}

/// Whether an address of the fourth version is not one of the public network: of a private one,
/// of the machine itself, of the link, of a group, unset, shared between customers of a carrier,
/// for measurements, for protocols, or of everyone.
pub open spec fn is_local_v4(o: Seq<u8>) -> bool {
    ||| is_private_v4(o)
    ||| o[0] == 127
    ||| (o[0] == 169 && o[1] == 254)
    ||| 224 <= o[0] <= 239
    ||| o[0] == 0
    ||| (o[0] == 100 && 64 <= o[1] <= 127)
    ||| (o[0] == 198 && (o[1] == 18 || o[1] == 19))
    ||| (o[0] == 192 && o[1] == 0 && o[2] == 0)
    ||| (o[0] == 255 && o[1] == 255 && o[2] == 255 && o[3] == 255)
}

/// Whether all segments of an address but the last are zero.
pub open spec fn is_low_v6(g: Seq<u16>) -> bool {
    g[0] == 0 && g[1] == 0 && g[2] == 0 && g[3] == 0 && g[4] == 0 && g[5] == 0 && g[6] == 0
}

/// Whether an address of the sixth version is not one of the public network: of the machine
/// itself, of a group, unset, of a site, or of the link.
pub open spec fn is_local_v6(g: Seq<u16>) -> bool {
    ||| (is_low_v6(g) && (g[7] == 0 || g[7] == 1))
    ||| 0xff00 <= g[0]
    ||| 0xfc00 <= g[0] <= 0xfdff
    ||| 0xfe80 <= g[0] <= 0xfebf
}

/// Whether no image may be fetched from an address.
pub open spec fn is_disallowed(address: HostAddress) -> bool {
    match address {
        HostAddress::V4(o) => is_local_v4(o@),
        HostAddress::V6(g) => is_local_v6(g@),
    }
}

/// Whether no image may be fetched from an address.
pub fn ip_is_disallowed(address: &HostAddress) -> (r: bool)
    ensures
        r == is_disallowed(*address),
{
    match address {
        HostAddress::V4(o) => {
            let private: bool = o[0] == 10 || (o[0] == 172 && 16 <= o[1] && o[1] <= 31) || (o[0] == 192 && o[1]
                == 168);
            private || o[0] == 127 || (o[0] == 169 && o[1] == 254) || (224 <= o[0] && o[0] <= 239) || o[0] == 0 || (
            o[0] == 100 && 64 <= o[1] && o[1] <= 127) || (o[0] == 198 && (o[1] == 18 || o[1] == 19)) || (o[0] == 192
                && o[1] == 0 && o[2] == 0) || (o[0] == 255 && o[1] == 255 && o[2] == 255 && o[3] == 255)
        },
        HostAddress::V6(g) => {
            let low: bool = g[0] == 0 && g[1] == 0 && g[2] == 0 && g[3] == 0 && g[4] == 0 && g[5] == 0 && g[6] == 0;
            (low && (g[7] == 0 || g[7] == 1)) || 0xff00 <= g[0] || (0xfc00 <= g[0] && g[0] <= 0xfdff) || (0xfe80
                <= g[0] && g[0] <= 0xfebf)
        },
    }
}

// ---------------------------------------------------------------------------
// Images on the web
// ---------------------------------------------------------------------------

/// The parts of an image's address that matter here.
pub struct ImageUrl {
    pub scheme: String,
    pub host: Option<String>,
    /// The port, or the usual one of the scheme.
    pub port: Option<u16>,
    /// The segments of the path, where the address has one that is divided.
    pub segments: Option<Vec<String>>,
}

/// The parts of an image's address, as a mathematical value.
pub struct UrlView {
    pub scheme: Seq<char>,
    pub host: Option<Seq<char>>,
    pub port: Option<u16>,
    pub segments: Option<Seq<Seq<char>>>,
}

impl View for ImageUrl {
    type V = UrlView;

    open spec fn view(&self) -> UrlView {
        UrlView {
            scheme: self.scheme@,
            host: text::opt_string(self.host),
            port: self.port,
            segments: match self.segments {
                Some(segments) => Some(text::texts(segments@)),
                None => None,
            },
        }
    }
}

impl UrlView {
    /// The last segment of the path.
    pub open spec fn last_segment(self) -> Option<Seq<char>> {
        match self.segments {
            Some(segments) => if segments.len() > 0 {
                Some(segments.last())
            } else {
                None
            },
            None => None,
        }
    }
}

impl ImageUrl {
    /// The last segment of the path.
    pub fn last_segment(&self) -> (r: Option<String>)
        ensures
            text::opt_string(r) == self@.last_segment(),
    {
        match &self.segments {
            Some(segments) => if segments.len() > 0 {
                Some(segments[segments.len() - 1].clone())
            } else {
                None
            },
            None => None,
        }
    }
}

/// The parts of the address that a text denotes; nothing where it denotes none.
pub uninterp spec fn parsed_url(s: Seq<char>) -> Option<UrlView>;

/// `reqwest::Url::parse`, and the parts of the address: `scheme`, `host_str`,
/// `port_or_known_default` and `path_segments`.
#[verifier::external_body]
pub(crate) fn parse_url(s: &str) -> (r: Option<ImageUrl>)
    ensures
        match r {
            Some(url) => parsed_url(s@) == Some(url@),
            None => parsed_url(s@) is None,
        },
{
    let url = reqwest::Url::parse(s).ok()?;
    Some(ImageUrl {
        scheme: url.scheme().to_string(),
        host: url.host_str().map(str::to_string),
        port: url.port_or_known_default(),
        segments: url.path_segments().map(|segments| segments.map(str::to_string).collect()),
    })
}

/// What is decided of the host of an image's address.
pub enum HostVerdict {
    /// No image is fetched from it.
    Refused(String),
    /// Images may be fetched from it.
    Allowed,
    /// Its name has to be looked up; the addresses decide.
    LookUp { host: String, port: u16 },
}

/// What is decided of the host of an image's address, as a mathematical value.
pub enum VerdictView {
    Refused(Seq<char>),
    Allowed,
    LookUp { host: Seq<char>, port: u16 },
}

impl View for HostVerdict {
    type V = VerdictView;

    open spec fn view(&self) -> VerdictView {
        match self {
            HostVerdict::Refused(e) => VerdictView::Refused(e@),
            HostVerdict::Allowed => VerdictView::Allowed,
            HostVerdict::LookUp { host, port } => VerdictView::LookUp { host: host@, port: *port },
        }
    }
}

/// Whether the name of a host is one of the machine itself or of the local network.
pub open spec fn is_local_name(host: Seq<char>) -> bool {
    let h = text::ascii_lowered(host);
    h == "localhost"@ || text::has_suffix(h, ".localhost"@) || text::has_suffix(h, ".local"@)
}

/// What is decided of the host of an image's address, given the address that the host's name
/// itself denotes, where it denotes one.
pub open spec fn host_verdict(url: UrlView, address: Option<HostAddress>) -> VerdictView {
    if url.scheme != "http"@ && url.scheme != "https"@ {
        VerdictView::Refused("Image URL must use http or https."@)
    } else {
        match url.host {
            None => VerdictView::Refused("Image URL must include a host."@),
            Some(host) => if is_local_name(host) {
                VerdictView::Refused("Blocked image URL host: localhost and local domains are not allowed."@)
            } else {
                match address {
                    Some(a) => if is_disallowed(a) {
                        VerdictView::Refused(
                            "Blocked image URL host: private or local network addresses are not allowed."@,
                        )
                    } else {
                        VerdictView::Allowed
                    },
                    None => VerdictView::LookUp {
                        host,
                        port: match url.port {
                            Some(p) => p,
                            None => if url.scheme == "https"@ {
                                443
                            } else {
                                80
                            },
                        },
                    },
                }
            },
        }
    }
}

/// Decides on the host of an image's address.
pub fn validate_public_image_url(url: &ImageUrl, address: Option<HostAddress>) -> (r: HostVerdict)
    ensures
        r@ == host_verdict(url@, address),
{
    let scheme: &str = url.scheme.as_str();
    if !str_eq(scheme, "http") && !str_eq(scheme, "https") {
        return HostVerdict::Refused("Image URL must use http or https.".to_owned());
    }
    let host: &str = match &url.host {
        Some(host) => host.as_str(),
        None => return HostVerdict::Refused("Image URL must include a host.".to_owned()),
    };
    let lowered: String = to_ascii_lowercase(host);
    if str_eq(lowered.as_str(), "localhost") || ends_with(lowered.as_str(), ".localhost") || ends_with(
        lowered.as_str(),
        ".local",
    ) {
        return HostVerdict::Refused(
            "Blocked image URL host: localhost and local domains are not allowed.".to_owned(),
        );
    }
    match address {
        Some(a) => if ip_is_disallowed(&a) {
            HostVerdict::Refused(
                "Blocked image URL host: private or local network addresses are not allowed.".to_owned(),
            )
        } else {
            HostVerdict::Allowed
        },
        None => {
            let port: u16 = match url.port {
                Some(p) => p,
                None => if str_eq(scheme, "https") {
                    443
                } else {
                    80
                },
            };
            HostVerdict::LookUp { host: host.to_owned(), port }
        },
    }
}

/// What is decided of the addresses of a host: there is one at least, and none is refused.
pub open spec fn addresses_verdict(addresses: Seq<HostAddress>) -> Result<(), Seq<char>> {
    if exists|i: int| 0 <= i < addresses.len() && is_disallowed(#[trigger] addresses[i]) {
        Err("Blocked image URL host: private or local network addresses are not allowed."@)
    } else if addresses.len() == 0 {
        Err("Image URL host did not resolve to any addresses."@)
    } else {
        Ok(())
    }
}

pub open spec fn result_unit(r: Result<(), String>) -> Result<(), Seq<char>> {
    match r {
        Ok(_) => Ok(()),
        Err(e) => Err(e@),
    }
}

/// Decides on the addresses of a host.
pub fn check_resolved_addresses(addresses: &Vec<HostAddress>) -> (r: Result<(), String>)
    ensures
        result_unit(r) == addresses_verdict(addresses@),
{
    let mut i: usize = 0;
    while i < addresses.len()
        invariant
            i <= addresses@.len(),
            forall|k: int| 0 <= k < i ==> !is_disallowed(#[trigger] addresses@[k]),
        decreases addresses@.len() - i,
    {
        if ip_is_disallowed(&addresses[i]) {
            return Err(
                "Blocked image URL host: private or local network addresses are not allowed.".to_owned(),
            );
        }
        i = i + 1;
    }
    if addresses.len() == 0 {
        return Err("Image URL host did not resolve to any addresses.".to_owned());
    }
    Ok(())
}

/// The address that a text denotes; an error where it denotes none.
pub open spec fn fetch_url(s: Seq<char>) -> Result<UrlView, Seq<char>> {
    match parsed_url(s) {
        Some(url) => Ok(url),
        None => Err("Invalid image URL."@),
    }
}

pub open spec fn result_url(r: Result<ImageUrl, String>) -> Result<UrlView, Seq<char>> {
    match r {
        Ok(url) => Ok(url@),
        Err(e) => Err(e@),
    }
}

/// Reads the address of an image.
pub fn read_image_url(s: &str) -> (r: Result<ImageUrl, String>)
    ensures
        result_url(r) == fetch_url(s@),
{
    match parse_url(s) {
        Some(url) => Ok(url),
        None => Err("Invalid image URL.".to_owned()),
    }
}

/// The media type of an answer, from its header; an error where it is no image.
pub open spec fn content_type_mime(header: Option<Seq<char>>) -> Result<Seq<char>, Seq<char>> {
    match text::trimmed_some(header) {
        Some(value) => {
            let first = match text::split_char_of(value, ';') {
                Some((a, _)) => a,
                None => value,
            };
            let mime = text::ascii_lowered(text::trim_of(first));
            if text::has_prefix(mime, "image/"@) {
                Ok(mime)
            } else {
                Err("Image URL must return an image Content-Type header."@)
            }
        },
        None => Err("Image URL must return an image Content-Type header."@),
    }
}

/// The media type of an answer, from its header; an error where it is no image.
pub fn image_mime_from_content_type(header: Option<&str>) -> (r: Result<String, String>)
    ensures
        text::result_text(r) == content_type_mime(text::opt_text(header)),
{
    match trim_some(header) {
        Some(value) => {
            let first: &str = match split_once_char(value, ';') {
                Some((a, _)) => a,
                None => value,
            };
            let mime: String = to_ascii_lowercase(trim(first));
            if starts_with(mime.as_str(), "image/") {
                Ok(mime)
            } else {
                Err("Image URL must return an image Content-Type header.".to_owned())
            }
        },
        None => Err("Image URL must return an image Content-Type header.".to_owned()),
    }
}

/// The number of bytes that a fetched image may have.
pub const URL_IMAGE_MAX_BYTES: usize = 8388608;

/// The bytes of an image with a chunk behind them; an error where the image gets too large.
pub open spec fn with_chunk(bytes: Seq<u8>, chunk: Seq<u8>) -> Result<Seq<u8>, Seq<char>> {
    if bytes.len() + chunk.len() > URL_IMAGE_MAX_BYTES {
        Err("Image URL exceeds max allowed size of "@ + text::decimal(URL_IMAGE_MAX_BYTES as nat) + " bytes."@)
    } else {
        Ok(bytes + chunk)
    }
}

/// Adds a chunk to the bytes of an image, unless the image gets too large.
pub fn add_image_chunk(bytes: &mut Vec<u8>, chunk: &Vec<u8>) -> (r: Result<(), String>)
    requires
        old(bytes)@.len() + chunk@.len() <= usize::MAX,
    ensures
        match with_chunk(old(bytes)@, chunk@) {
            Ok(all) => r is Ok && final(bytes)@ == all,
            Err(e) => result_unit(r) == Err::<(), Seq<char>>(e) && final(bytes)@ == old(bytes)@,
        },
{
    if bytes.len() + chunk.len() > URL_IMAGE_MAX_BYTES {
        let limit: String = decimal_text(URL_IMAGE_MAX_BYTES as u64);
        return Err(cat3("Image URL exceeds max allowed size of ", limit.as_str(), " bytes."));
    }
    let mut i: usize = 0;
    let ghost start = bytes@;
    while i < chunk.len()
        invariant
            i <= chunk@.len(),
            bytes@ == start + chunk@.take(i as int),
        decreases chunk@.len() - i,
    {
        bytes.push(chunk[i]);
        assert(bytes@ =~= start + chunk@.take(i + 1));
        i = i + 1;
    }
    assert(chunk@.take(chunk@.len() as int) =~= chunk@);
    Ok(())
}

/// The name of a file: the last segment of its address, where that is not empty.
pub open spec fn name_from_segment(last_segment: Option<Seq<char>>) -> Seq<char> {
    match last_segment {
        Some(s) => if s.len() > 0 {
            s
        } else {
            "image"@
        },
        None => "image"@,
    }
}

/// The part that carries a fetched image.
pub open spec fn fetched_part(mime: Seq<char>, bytes: Seq<u8>, last_segment: Option<Seq<char>>) -> JsonView {
    file_part(mime, data_url(mime, base64_text(bytes)), name_from_segment(last_segment))
}

/// The part that carries a fetched image, given the base64 notation of its bytes.
pub fn build_fetched_part(mime: &str, encoded: &str, last_segment: &Option<String>) -> (r: Json)
    ensures
        r@ == file_part(mime@, data_url(mime@, encoded@), name_from_segment(text::opt_string(*last_segment))),
{
    let name: &str = match last_segment {
        Some(s) => if s.as_str().is_empty() {
            "image"
        } else {
            s.as_str()
        },
        None => "image",
    };
    build_file_part(mime, build_data_url(mime, encoded).as_str(), name)
}

/// The part that carries a fetched image.
pub fn fetched_image_as_file_part(mime: &str, bytes: &Vec<u8>, last_segment: &Option<String>) -> (r: Json)
    requires
        encodable(bytes@.len()),
    ensures
        r@ == fetched_part(mime@, bytes@, text::opt_string(*last_segment)),
{
    build_fetched_part(mime, base64_encode(bytes).as_str(), last_segment)
}

// ---------------------------------------------------------------------------
// Data URLs, there and back
// ---------------------------------------------------------------------------

proof fn lemma_mark_is_first(mime: Seq<char>, encoded: Seq<char>, from: int)
    requires
        0 <= from <= mime.len(),
        text::text_from(mime, ";base64,"@, from) is None,
    ensures
        text::text_from(mime + ";base64,"@ + encoded, ";base64,"@, from) == Some(mime.len() as int),
    decreases mime.len() - from,
{
    reveal_strlit(";base64,");
    let mark = ";base64,"@;
    let s = mime + mark + encoded;
    if from == mime.len() {
        assert(s.subrange(from, from + mark.len()) =~= mark);
    } else {
        let here = s.subrange(from, from + mark.len());
        assert(here != mark) by {
            if here == mark {
                if from + mark.len() <= mime.len() {
                    assert(mime.subrange(from, from + mark.len()) =~= here);
                } else {
                    let k = mime.len() - from;
                    assert(s[mime.len() as int] == mark[0]);
                    assert(here[k] == s[from + k]);
                    assert(mark[k] == ';');
                }
            }
        }
        assert(text::text_from(mime, mark, from + 1) is None);
        lemma_mark_is_first(mime, encoded, from + 1);
    }
}

/// A data URL is taken apart into the media type and the notation that it was made of, unless the
/// media type holds the mark that stands between the two.
pub proof fn law_data_url_is_taken_apart_again(mime: Seq<char>, encoded: Seq<char>)
    requires
        text::text_from(mime, ";base64,"@, 0) is None,
    ensures
        data_url_parts(data_url(mime, encoded)) == Some((mime, encoded)),
{
    let url = data_url(mime, encoded);
    let head = "data:"@;
    let mark = ";base64,"@;
    let rest = mime + mark + encoded;
    assert(url =~= head + rest);
    assert(url.take(head.len() as int) =~= head);
    assert(url.skip(head.len() as int) =~= rest);
    lemma_mark_is_first(mime, encoded, 0);
    assert(rest.take(mime.len() as int) =~= mime);
    assert(rest.skip((mime.len() + mark.len()) as int) =~= encoded);
}

/// An image that was put into a data URL comes out of it with its media type and its bytes, where
/// the URL has no white space around it.
pub proof fn law_image_survives_its_data_url(mime: Seq<char>, encoded: Seq<char>, bytes: Seq<u8>)
    requires
        text::has_prefix(mime, "image/"@),
        text::text_from(mime, ";base64,"@, 0) is None,
        base64_bytes(encoded) == Some(bytes),
        text::trim_of(data_url(mime, encoded)) == data_url(mime, encoded),
    ensures
        data_image(data_url(mime, encoded)) == Some((mime, bytes)),
{
    law_data_url_is_taken_apart_again(mime, encoded);
}

} // verus!
