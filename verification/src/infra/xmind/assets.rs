//! Image assets: which media types an embedded image may have, and the checksum
//! under which its bytes are recorded.
use vstd::prelude::*;
use sha2::Digest;
use crate::text::{
    chars_of, contains, contains_spec, leading_count, push_all, starts_with, starts_with_spec,
    string_from_chars, trim_start, trim_start_spec,
};

verus! {

/// What SHA-256 makes of a byte string.
pub uninterp spec fn sha256_spec(data: Seq<u8>) -> Seq<u8>;

/// The text a byte string encodes: its characters where the bytes are valid UTF-8,
/// nothing otherwise.
pub open spec fn utf8_decoded(bytes: Seq<u8>) -> Option<Seq<char>> {
    if vstd::utf8::valid_utf8(bytes) {
        Some(vstd::utf8::decode_utf8(bytes))
    } else {
        None
    }
}

/// SHA-256 of `bytes` (`sha2::Sha256::digest`); the digest is 32 bytes long.
#[verifier::external_body]
fn sha256(bytes: &[u8]) -> (r: Vec<u8>)
    ensures
        r@ == sha256_spec(bytes@),
        r@.len() == 32,
{
    sha2::Sha256::digest(bytes).to_vec()
}

/// The text that `bytes` encode in UTF-8, if they are valid UTF-8 (`std::str::from_utf8`,
/// which fails exactly on bytes that are not valid UTF-8).
#[verifier::external_body]
fn utf8_text(bytes: &[u8]) -> (r: Option<String>)
    ensures
        match r {
            Some(s) => utf8_decoded(bytes@) == Some(s@),
            None => utf8_decoded(bytes@) is None,
        },
{
    match std::str::from_utf8(bytes) {
        Ok(text) => Some(text.to_owned()),
        Err(_) => None,
    }
}

/// The lower-case hexadecimal digit of `d`.
pub open spec fn hex_digit_spec(d: nat) -> char {
    if d < 10 {
        (('0' as nat) + d) as char
    } else {
        (('a' as nat) + d - 10) as char
    }
}

/// Each byte as two lower-case hexadecimal digits.
pub open spec fn hex_spec(bytes: Seq<u8>) -> Seq<char>
    decreases bytes.len(),
{
    if bytes.len() == 0 {
        Seq::empty()
    } else {
        hex_spec(bytes.drop_last()) + seq![
            hex_digit_spec((bytes.last() / 16) as nat),
            hex_digit_spec((bytes.last() % 16) as nat),
        ]
    }
}

/// The checksum recorded for image bytes: `sha256:` and the digest in hexadecimal.
pub open spec fn image_checksum_spec(bytes: Seq<u8>) -> Seq<char> {
    "sha256:"@ + hex_spec(sha256_spec(bytes))
}

fn hex_digit(d: u8) -> (c: char)
    requires
        d < 16,
    ensures
        c == hex_digit_spec(d as nat),
{
    if d < 10 {
        ((48u8 + d) as char)
    } else {
        ((87u8 + d) as char)
    }
}

/// The checksum under which image bytes are recorded: `sha256:` followed by the
/// SHA-256 digest in lower-case hexadecimal.
pub fn image_checksum(bytes: &[u8]) -> (r: String)
    ensures
        r@ == image_checksum_spec(bytes@),
{
    let digest = sha256(bytes);
    let mut out: Vec<char> = chars_of("sha256:");
    let ghost prefix = out@;
    let mut i: usize = 0;
    while i < digest.len()
        invariant
            i <= digest@.len(),
            out@ == prefix + hex_spec(digest@.take(i as int)),
        decreases digest@.len() - i,
    {
        let b = digest[i];
        out.push(hex_digit(b / 16));
        out.push(hex_digit(b % 16));
        proof {
            assert(digest@.take(i + 1).drop_last() == digest@.take(i as int));
        }
        i = i + 1;
    }
    proof {
        assert(digest@.take(digest@.len() as int) == digest@);
        reveal_strlit("sha256:");
    }
    string_from_chars(out.as_slice())
}

/// Whether `bytes` begin with `prefix`.
pub open spec fn bytes_start_with(bytes: Seq<u8>, prefix: Seq<u8>) -> bool {
    prefix.len() <= bytes.len() && bytes.take(prefix.len() as int) == prefix
}

fn starts_with_bytes(bytes: &[u8], prefix: &[u8]) -> (r: bool)
    ensures
        r == bytes_start_with(bytes@, prefix@),
{
    if prefix.len() > bytes.len() {
        return false;
    }
    let mut i: usize = 0;
    while i < prefix.len()
        invariant
            prefix@.len() <= bytes@.len(),
            i <= prefix@.len(),
            forall|k: int| 0 <= k < i ==> bytes@[k] == prefix@[k],
        decreases prefix@.len() - i,
    {
        if bytes[i] != prefix[i] {
            return false;
        }
        i = i + 1;
    }
    proof {
        assert(bytes@.take(prefix@.len() as int) == prefix@);
    }
    true
}

/// The byte-order mark that may open a text file.
pub open spec fn is_bom(c: char) -> bool {
    c == '\u{feff}'
}

/// The text of an SVG candidate once leading byte-order marks and then leading white
/// space are dropped.
pub open spec fn svg_text_start(text: Seq<char>) -> Seq<char> {
    trim_start_spec(text.skip(leading_count(text, |c: char| is_bom(c)) as int))
}

/// Whether `bytes` look like an SVG document: valid UTF-8 that, after leading
/// byte-order marks and white space, opens with `<svg`, or opens with `<?xml` and
/// holds `<svg` somewhere.
pub open spec fn looks_like_svg_spec(bytes: Seq<u8>) -> bool {
    match utf8_decoded(bytes) {
        None => false,
        Some(text) => {
            let t = svg_text_start(text);
            starts_with_spec(t, "<svg"@) || (starts_with_spec(t, "<?xml"@) && contains_spec(
                t,
                "<svg"@,
            ))
        },
    }
}

/// The PNG signature.
pub open spec fn png_magic() -> Seq<u8> {
    seq![0x89u8, 0x50u8, 0x4eu8, 0x47u8, 0x0du8, 0x0au8, 0x1au8, 0x0au8]
}

/// The JPEG signature.
pub open spec fn jpeg_magic() -> Seq<u8> {
    seq![0xffu8, 0xd8u8, 0xffu8]
}

/// The two GIF signatures, `GIF87a` and `GIF89a`.
pub open spec fn gif87_magic() -> Seq<u8> {
    seq![0x47u8, 0x49u8, 0x46u8, 0x38u8, 0x37u8, 0x61u8]
}

pub open spec fn gif89_magic() -> Seq<u8> {
    seq![0x47u8, 0x49u8, 0x46u8, 0x38u8, 0x39u8, 0x61u8]
}

/// The media type detected for image bytes, the signatures tried in order.
pub open spec fn media_type_spec(bytes: Seq<u8>) -> Option<Seq<char>> {
    if bytes_start_with(bytes, png_magic()) {
        Some("image/png"@)
    } else if bytes_start_with(bytes, jpeg_magic()) {
        Some("image/jpeg"@)
    } else if bytes_start_with(bytes, gif87_magic()) || bytes_start_with(bytes, gif89_magic()) {
        Some("image/gif"@)
    } else if looks_like_svg_spec(bytes) {
        Some("image/svg+xml"@)
    } else {
        None
    }
}

/// A media type as text.
pub open spec fn media_type_view(m: Option<&str>) -> Option<Seq<char>> {
    match m {
        Some(s) => Some(s@),
        None => None,
    }
}

fn strip_boms(cs: &[char]) -> (r: Vec<char>)
    ensures
        r@ == cs@.skip(leading_count(cs@, |c: char| is_bom(c)) as int),
{
    let ghost p = |c: char| is_bom(c);
    let mut i: usize = 0;
    while i < cs.len() && cs[i] == '\u{feff}'
        invariant
            i <= cs@.len(),
            forall|k: int| 0 <= k < i ==> is_bom(#[trigger] cs@[k]),
        decreases cs@.len() - i,
    {
        i = i + 1;
    }
    proof {
        assert(forall|k: int| 0 <= k < i ==> p(#[trigger] cs@[k]));
        crate::text::lemma_leading_count_from(cs@, p, i as int);
    }
    let mut out: Vec<char> = Vec::new();
    let mut j: usize = i;
    while j < cs.len()
        invariant
            i <= j <= cs@.len(),
            out@ == cs@.subrange(i as int, j as int),
        decreases cs@.len() - j,
    {
        out.push(cs[j]);
        j = j + 1;
        proof {
            assert(out@ == cs@.subrange(i as int, j as int));
        }
    }
    out
}

fn looks_like_svg(bytes: &[u8]) -> (r: bool)
    ensures
        r == looks_like_svg_spec(bytes@),
{
    let text = match utf8_text(bytes) {
        Some(t) => t,
        None => return false,
    };
    let cs = chars_of(text.as_str());
    let stripped = strip_boms(cs.as_slice());
    let t = trim_start(stripped.as_slice());
    let svg = chars_of("<svg");
    let xml = chars_of("<?xml");
    starts_with(t.as_slice(), svg.as_slice()) || (starts_with(t.as_slice(), xml.as_slice())
        && contains(t.as_slice(), svg.as_slice()))
}

/// The media type of image bytes that a workbook may embed: PNG, JPEG and GIF by
/// their signatures, SVG by its text; `None` for anything else.
pub fn detect_supported_image_media_type(bytes: &[u8]) -> (r: Option<&'static str>)
    ensures
        media_type_view(r) == media_type_spec(bytes@),
{
    let png: [u8; 8] = [0x89u8, 0x50u8, 0x4eu8, 0x47u8, 0x0du8, 0x0au8, 0x1au8, 0x0au8];
    let jpeg: [u8; 3] = [0xffu8, 0xd8u8, 0xffu8];
    let gif87: [u8; 6] = [0x47u8, 0x49u8, 0x46u8, 0x38u8, 0x37u8, 0x61u8];
    let gif89: [u8; 6] = [0x47u8, 0x49u8, 0x46u8, 0x38u8, 0x39u8, 0x61u8];
    proof {
        assert(png@ == png_magic());
        assert(jpeg@ == jpeg_magic());
        assert(gif87@ == gif87_magic());
        assert(gif89@ == gif89_magic());
    }
    if starts_with_bytes(bytes, png.as_slice()) {
        return Some("image/png");
    }
    if starts_with_bytes(bytes, jpeg.as_slice()) {
        return Some("image/jpeg");
    }
    if starts_with_bytes(bytes, gif87.as_slice()) || starts_with_bytes(bytes, gif89.as_slice()) {
        return Some("image/gif");
    }
    if looks_like_svg(bytes) {
        return Some("image/svg+xml");
    }
    None
}

} // verus!
