//! Which images may be fetched, and what their media types are.

use vstd::prelude::*;

use crate::images;
use crate::images::{HostAddress, UrlView, VerdictView};
use crate::reading;
use crate::text;

verus! {

// ---------------------------------------------------------------------------
// Media types
// ---------------------------------------------------------------------------

proof fn lemma_ending(stem: Seq<char>, end: Seq<char>, other: Seq<char>)
    requires
        text::ascii_lowered(end) == end,
        other.len() > 0,
        end.len() > 0,
        other.last() != end.last() || (other.len() > 1 && end.len() > 1 && other[other.len() - 2] != end[end.len() - 2])
            || (other.len() > 2 && end.len() > 2 && other[other.len() - 3] != end[end.len() - 3]),
    ensures
        text::has_suffix(text::ascii_lowered(stem + end), end),
        !text::has_suffix(text::ascii_lowered(stem + end), other),
{
    let p = text::ascii_lowered(stem + end);
    assert(p.skip(p.len() - end.len()) =~= text::ascii_lowered(end));
    if text::has_suffix(p, other) {
        let tail = p.skip(p.len() - other.len());
        let own = p.skip(p.len() - end.len());
        assert(tail.last() == p.last() && own.last() == p.last());
        if other.len() > 1 && end.len() > 1 {
            assert(tail[other.len() - 2] == p[p.len() - 2]);
            assert(own[end.len() - 2] == p[p.len() - 2]);
        }
        if other.len() > 2 && end.len() > 2 {
            assert(tail[other.len() - 3] == p[p.len() - 3]);
            assert(own[end.len() - 3] == p[p.len() - 3]);
        }
    }
}

proof fn lemma_lowered(s: Seq<char>)
    requires
        forall|i: int| 0 <= i < s.len() ==> !('A' <= #[trigger] s[i] <= 'Z'),
    ensures
        text::ascii_lowered(s) == s,
{
    assert(text::ascii_lowered(s) =~= s);
}

/// The media type of an image is told by the end of its path, whatever stands before it.
pub proof fn law_media_type_is_told_by_the_end(stem: Seq<char>)
    ensures
        images::mime_of(stem + ".png"@) == "image/png"@,
        images::mime_of(stem + ".jpg"@) == "image/jpeg"@,
        images::mime_of(stem + ".jpeg"@) == "image/jpeg"@,
        images::mime_of(stem + ".gif"@) == "image/gif"@,
        images::mime_of(stem + ".webp"@) == "image/webp"@,
        images::mime_of(stem + ".svg"@) == "image/svg+xml"@,
{
    reveal_strlit(".png");
    reveal_strlit(".jpg");
    reveal_strlit(".jpeg");
    reveal_strlit(".gif");
    reveal_strlit(".webp");
    reveal_strlit(".svg");
    lemma_lowered(".png"@);
    lemma_lowered(".jpg"@);
    lemma_lowered(".jpeg"@);
    lemma_lowered(".gif"@);
    lemma_lowered(".webp"@);
    lemma_lowered(".svg"@);
    lemma_ending(stem, ".png"@, ".jpg"@);
    lemma_ending(stem, ".jpg"@, ".png"@);
    lemma_ending(stem, ".jpeg"@, ".png"@);
    lemma_ending(stem, ".gif"@, ".png"@);
    lemma_ending(stem, ".gif"@, ".jpg"@);
    lemma_ending(stem, ".gif"@, ".jpeg"@);
    lemma_ending(stem, ".webp"@, ".png"@);
    lemma_ending(stem, ".webp"@, ".jpg"@);
    lemma_ending(stem, ".webp"@, ".jpeg"@);
    lemma_ending(stem, ".webp"@, ".gif"@);
    lemma_ending(stem, ".svg"@, ".png"@);
    lemma_ending(stem, ".svg"@, ".jpg"@);
    lemma_ending(stem, ".svg"@, ".jpeg"@);
    lemma_ending(stem, ".svg"@, ".gif"@);
    lemma_ending(stem, ".svg"@, ".webp"@);
}

/// A path that ends otherwise is of no known media type, and small and large letters do not differ.
pub proof fn law_other_paths_have_no_media_type(path: Seq<char>)
    ensures
        images::mime_of(text::ascii_lowered(path)) == images::mime_of(path),
        ({
            let p = text::ascii_lowered(path);
            !text::has_suffix(p, ".png"@) && !text::has_suffix(p, ".jpg"@) && !text::has_suffix(p, ".jpeg"@)
                && !text::has_suffix(p, ".gif"@) && !text::has_suffix(p, ".webp"@) && !text::has_suffix(p, ".svg"@)
                ==> images::mime_of(path) == "application/octet-stream"@
        }),
{
    assert(text::ascii_lowered(text::ascii_lowered(path)) =~= text::ascii_lowered(path));
}

proof fn lemma_mimes()
    ensures
        "image/bmp"@.len() == 9,
        "image/bmp"@[6] == 'b',
        "image/gif"@.len() == 9,
        "image/gif"@[6] == 'g',
        "image/jpeg"@.len() == 10,
        "image/jpeg"@[6] == 'j',
        "image/png"@.len() == 9,
        "image/png"@[6] == 'p',
        "image/svg+xml"@.len() == 13,
        "image/tiff"@.len() == 10,
        "image/tiff"@[6] == 't',
        "image/webp"@.len() == 10,
        "image/webp"@[6] == 'w',
{
    reveal_strlit("image/bmp");
    reveal_strlit("image/gif");
    reveal_strlit("image/jpeg");
    reveal_strlit("image/png");
    reveal_strlit("image/svg+xml");
    reveal_strlit("image/tiff");
    reveal_strlit("image/webp");
}

/// A file that keeps an image is named so that its media type is told again by its end, where the
/// media type is one that ends tell.
pub proof fn law_extension_tells_the_media_type_again(stem: Seq<char>, mime: Seq<char>)
    requires
        mime == "image/png"@ || mime == "image/jpeg"@ || mime == "image/gif"@ || mime == "image/webp"@ || mime
            == "image/svg+xml"@,
    ensures
        images::mime_of(stem + "."@ + images::extension_of(mime)) == mime,
{
    lemma_mimes();
    law_media_type_is_told_by_the_end(stem);
    assert(text::trim_of(mime) == mime && text::ascii_lowered(mime) == mime) by {
        reveal_strlit("image/png");
        reveal_strlit("image/jpeg");
        reveal_strlit("image/gif");
        reveal_strlit("image/webp");
        reveal_strlit("image/svg+xml");
        lemma_lowered(mime);
    }
    reveal_strlit(".");
    reveal_strlit("png");
    reveal_strlit("jpg");
    reveal_strlit("gif");
    reveal_strlit("webp");
    reveal_strlit("svg");
    reveal_strlit(".png");
    reveal_strlit(".jpg");
    reveal_strlit(".gif");
    reveal_strlit(".webp");
    reveal_strlit(".svg");
    assert(stem + "."@ + "png"@ =~= stem + ".png"@);
    assert(stem + "."@ + "jpg"@ =~= stem + ".jpg"@);
    assert(stem + "."@ + "gif"@ =~= stem + ".gif"@);
    assert(stem + "."@ + "webp"@ =~= stem + ".webp"@);
    assert(stem + "."@ + "svg"@ =~= stem + ".svg"@);
}

/// White space around a media type and the size of its letters do not count for the end of a file's
/// name; bitmaps and TIFFs have theirs, and a media type of no known image has that of any file.
pub proof fn law_extension_is_that_of_the_plain_media_type(a: Seq<char>, b: Seq<char>)
    ensures
        text::ascii_lowered(text::trim_of(a)) == text::ascii_lowered(text::trim_of(b)) ==> images::extension_of(a)
            == images::extension_of(b),
        text::ascii_lowered(text::trim_of(a)) == "image/bmp"@ ==> images::extension_of(a) == "bmp"@,
        text::ascii_lowered(text::trim_of(a)) == "image/tiff"@ ==> images::extension_of(a) == "tiff"@,
        !seq![
            "image/png"@,
            "image/jpeg"@,
            "image/gif"@,
            "image/webp"@,
            "image/svg+xml"@,
            "image/bmp"@,
            "image/tiff"@,
        ].contains(text::ascii_lowered(text::trim_of(a))) ==> images::extension_of(a) == "bin"@,
{
    lemma_mimes();
    let known = seq![
        "image/png"@,
        "image/jpeg"@,
        "image/gif"@,
        "image/webp"@,
        "image/svg+xml"@,
        "image/bmp"@,
        "image/tiff"@,
    ];
    assert(known[0] == "image/png"@ && known[1] == "image/jpeg"@ && known[2] == "image/gif"@);
    assert(known[3] == "image/webp"@ && known[4] == "image/svg+xml"@ && known[5] == "image/bmp"@);
    assert(known[6] == "image/tiff"@);
}

/// The media type of an answer is what its header says before the first semicolon, in small letters
/// and without white space around it; only images are taken.
pub proof fn law_only_images_are_taken(header: Option<Seq<char>>)
    ensures
        match images::content_type_mime(header) {
            Ok(mime) => {
                &&& header is Some
                &&& text::has_prefix(mime, "image/"@)
                &&& match text::char_from(text::trim_of(header->0), ';', 0) {
                    Some(i) => mime == text::ascii_lowered(text::trim_of(text::trim_of(header->0).take(i))),
                    None => mime == text::ascii_lowered(text::trim_of(text::trim_of(header->0))),
                }
            },
            Err(e) => {
                &&& e == "Image URL must return an image Content-Type header."@
                &&& header matches Some(h) ==> (text::char_from(text::trim_of(h), ';', 0) is None
                    ==> !text::has_prefix(text::ascii_lowered(text::trim_of(text::trim_of(h))), "image/"@)
                    || text::trim_of(h).len() == 0)
            },
        },
{
}

// ---------------------------------------------------------------------------
// Hosts
// ---------------------------------------------------------------------------

/// An address of the fourth version as one number.
pub open spec fn v4_number(o: Seq<u8>) -> int {
    ((o[0] as int * 256 + o[1] as int) * 256 + o[2] as int) * 256 + o[3] as int
}

/// Whether a number is one of the first `len` from `start` on.
pub open spec fn in_block(n: int, start: int, len: int) -> bool {
    start <= n < start + len
}

/// The addresses of the fourth version from which no image is fetched are these blocks, and no
/// others: the own network, private ones, those of carriers, the machine itself, the link,
/// protocols, measurements, groups, and the one of everyone.
pub proof fn law_local_addresses_are_blocks(o: Seq<u8>)
    requires
        o.len() == 4,
    ensures
        ({
            let n = v4_number(o);
            images::is_local_v4(o) <==> {
                ||| in_block(n, 0, 0x100_0000)
                ||| in_block(n, 0x0a00_0000, 0x100_0000)
                ||| in_block(n, 0x6440_0000, 0x40_0000)
                ||| in_block(n, 0x7f00_0000, 0x100_0000)
                ||| in_block(n, 0xa9fe_0000, 0x1_0000)
                ||| in_block(n, 0xac10_0000, 0x10_0000)
                ||| in_block(n, 0xc000_0000, 0x100)
                ||| in_block(n, 0xc0a8_0000, 0x1_0000)
                ||| in_block(n, 0xc612_0000, 0x2_0000)
                ||| in_block(n, 0xe000_0000, 0x1000_0000)
                ||| n == 0xffff_ffff
            }
        }),
{
}

/// The addresses of the sixth version from which no image is fetched are the unset one, the machine
/// itself, and those whose first segment lies in the blocks of groups, sites and links.
pub proof fn law_local_v6_addresses_are_blocks(g: Seq<u16>)
    requires
        g.len() == 8,
    ensures
        images::is_local_v6(g) <==> {
            ||| (forall|i: int| 0 <= i < 7 ==> #[trigger] g[i] == 0) && g[7] <= 1
            ||| in_block(g[0] as int, 0xff00, 0x100)
            ||| in_block(g[0] as int, 0xfc00, 0x200)
            ||| in_block(g[0] as int, 0xfe80, 0x40)
        },
{
}

/// An image is fetched only by `http` or `https` from a host that is not local: by name, and by its
/// address where it is one. A host that is a name is looked up, on the port that is given or usual.
pub proof fn law_images_come_from_public_hosts(url: UrlView, address: Option<HostAddress>)
    ensures
        ({
            let by_http = url.scheme == "http"@ || url.scheme == "https"@;
            match images::host_verdict(url, address) {
                VerdictView::Allowed => by_http && url.host is Some && !images::is_local_name(url.host->0)
                    && address is Some && !images::is_disallowed(address->0),
                VerdictView::LookUp { host, port } => {
                    &&& by_http && url.host == Some(host) && !images::is_local_name(host) && address is None
                    &&& url.port is Some ==> port == url.port->0
                    &&& url.port is None && url.scheme == "https"@ ==> port == 443
                    &&& url.port is None && url.scheme == "http"@ ==> port == 80
                },
                VerdictView::Refused(e) => {
                    ||| !by_http && e == "Image URL must use http or https."@
                    ||| by_http && url.host is None && e == "Image URL must include a host."@
                    ||| by_http && url.host is Some && images::is_local_name(url.host->0) && e
                        == "Blocked image URL host: localhost and local domains are not allowed."@
                    ||| by_http && url.host is Some && address is Some && images::is_disallowed(address->0) && e
                        == "Blocked image URL host: private or local network addresses are not allowed."@
                },
            }
        }),
        ({
            match address {
                Some(HostAddress::V4(o)) => images::is_disallowed(address->0) == images::is_local_v4(o@),
                Some(HostAddress::V6(g)) => images::is_disallowed(address->0) == images::is_local_v6(g@),
                None => true,
            }
        }),
{
    reveal_strlit("http");
    reveal_strlit("https");
    assert("http"@.len() != "https"@.len());
}

/// A host that is called `localhost`, or ends in `.localhost` or `.local`, is local, in whatever
/// letters.
pub proof fn law_local_names(stem: Seq<char>, host: Seq<char>)
    ensures
        images::is_local_name("localhost"@),
        images::is_local_name(stem + ".localhost"@),
        images::is_local_name(stem + ".local"@),
        images::is_local_name(text::ascii_lowered(host)) == images::is_local_name(host),
        images::is_local_name(host) ==> host.len() >= 6,
{
    reveal_strlit("localhost");
    reveal_strlit(".localhost");
    reveal_strlit(".local");
    lemma_lowered("localhost"@);
    lemma_lowered(".localhost"@);
    lemma_lowered(".local"@);
    let a = text::ascii_lowered(stem + ".localhost"@);
    assert(a.skip(a.len() - 10) =~= text::ascii_lowered(".localhost"@));
    let b = text::ascii_lowered(stem + ".local"@);
    assert(b.skip(b.len() - 6) =~= text::ascii_lowered(".local"@));
    assert(text::ascii_lowered(text::ascii_lowered(host)) =~= text::ascii_lowered(host));
}

/// The addresses that a name stands for are taken only where there are some and none is local.
pub proof fn law_all_addresses_must_be_public(addresses: Seq<HostAddress>, i: int)
    ensures
        images::addresses_verdict(addresses) is Ok ==> addresses.len() > 0 && (0 <= i < addresses.len()
            ==> !images::is_disallowed(addresses[i])),
        0 <= i < addresses.len() && images::is_disallowed(addresses[i]) ==> images::addresses_verdict(addresses)
            == Err::<(), Seq<char>>(
            "Blocked image URL host: private or local network addresses are not allowed."@,
        ),
        addresses.len() == 0 ==> images::addresses_verdict(addresses) == Err::<(), Seq<char>>(
            "Image URL host did not resolve to any addresses."@,
        ),
        addresses.len() > 0 && (forall|k: int| 0 <= k < addresses.len() ==> !images::is_disallowed(#[trigger] addresses[k]))
            ==> images::addresses_verdict(addresses) is Ok,
{
}

proof fn lemma_file_names()
    ensures
        "file"@.len() == 4,
        "file"@[0] == 'f',
        "filename"@.len() == 8,
        "mime"@.len() == 4,
        "mime"@[0] == 'm',
        "type"@.len() == 4,
        "type"@[0] == 't',
        "url"@.len() == 3,
{
    reveal_strlit("file");
    reveal_strlit("filename");
    reveal_strlit("mime");
    reveal_strlit("type");
    reveal_strlit("url");
}

/// A fetched image carries its own bytes, as a data URL of the media type of the answer, and the
/// last part of its address as its name, where that is not empty.
pub proof fn law_fetched_image_carries_its_bytes(
    mime: Seq<char>,
    bytes: Seq<u8>,
    segments: Option<Seq<Seq<char>>>,
    url: UrlView,
)
    requires
        url.segments == segments,
    ensures
        ({
            let part = images::fetched_part(mime, bytes, url.last_segment());
            let end = match segments {
                Some(list) => if list.len() > 0 {
                    list[list.len() - 1]
                } else {
                    Seq::empty()
                },
                None => Seq::empty(),
            };
            &&& part.get("type"@) == reading::found("file"@)
            &&& part.get("mime"@) == reading::found(mime)
            &&& part.get("url"@) == reading::found("data:"@ + mime + ";base64,"@ + images::base64_text(bytes))
            &&& part.get("filename"@) == (if end.len() > 0 {
                reading::found(end)
            } else {
                reading::found("image"@)
            })
        }),
{
    broadcast use reading::group_reading;
    lemma_file_names();
}

/// A data URL holds an image where its media type is one of images and its text can be decoded;
/// then it holds what its text denotes.
pub proof fn law_data_image_is_what_it_denotes(url: Seq<char>)
    ensures
        match images::data_image(url) {
            Some((mime, bytes)) => {
                &&& text::has_prefix(mime, "image/"@)
                &&& images::data_url_parts(text::trim_of(url)) matches Some((m, encoded)) && m == mime
                    && images::base64_bytes(encoded) == Some(bytes)
            },
            None => images::data_url_parts(text::trim_of(url)) matches Some((m, encoded)) ==> !text::has_prefix(
                m,
                "image/"@,
            ) || images::base64_bytes(encoded) is None,
        },
{
}

/// An image grows by its chunks as long as it stays within eight mebibytes; the chunk with which it
/// would not is refused.
pub proof fn law_image_grows_within_its_limit(bytes: Seq<u8>, chunk: Seq<u8>)
    ensures
        match images::with_chunk(bytes, chunk) {
            Ok(all) => all == bytes + chunk && all.len() <= 8 * 1024 * 1024,
            Err(e) => bytes.len() + chunk.len() > 8 * 1024 * 1024 && text::has_prefix(
                e,
                "Image URL exceeds max allowed size of "@,
            ) && text::has_suffix(e, " bytes."@),
        },
{
    let head = "Image URL exceeds max allowed size of "@;
    let limit = text::decimal(images::URL_IMAGE_MAX_BYTES as nat);
    let e = head + limit + " bytes."@;
    assert(e.take(head.len() as int) =~= head);
    assert(e.skip(e.len() - " bytes."@.len()) =~= " bytes."@);
}

/// A data URL of an image is kept in a file, whatever it holds; nothing else is.
pub proof fn law_data_urls_of_images_are_kept(raw: Seq<char>, rest: Seq<char>)
    ensures
        text::trim_of(raw) == "data:image/"@ + rest ==> images::holds_image(raw),
        images::holds_image(raw) ==> text::trim_of(raw) == "data:image/"@ + text::trim_of(raw).skip(11),
{
    reveal_strlit("data:image/");
    crate::text_laws::law_prefix_is_taken_off(text::trim_of(raw), "data:image/"@, rest);
}

/// An address that cannot be read is refused, and any other is taken as it was read.
pub proof fn law_unreadable_addresses_are_refused(s: Seq<char>)
    ensures
        images::parsed_url(s) matches Some(url) ==> images::fetch_url(s) == Ok::<UrlView, Seq<char>>(url),
        images::parsed_url(s) is None ==> images::fetch_url(s) == Err::<UrlView, Seq<char>>("Invalid image URL."@),
{
}

} // verus!
