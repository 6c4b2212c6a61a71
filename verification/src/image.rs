//! Recognition of embedded and referenced raster images.

use vstd::prelude::*;
use crate::text::str_eq;

verus! {

/// A supported image format.
#[derive(Clone, Copy, PartialEq, Eq, Debug, Structural)]
pub enum ImageFormat {
    PNG,
    JPEG,
    SVG,
}

/// The PNG file signature.
pub open spec fn png_signature() -> Seq<u8> {
    seq![0x89u8, 0x50u8, 0x4eu8, 0x47u8, 0x0du8, 0x0au8, 0x1au8, 0x0au8]
}

/// The JPEG file signature.
pub open spec fn jpeg_signature() -> Seq<u8> {
    seq![0xffu8, 0xd8u8, 0xffu8]
}

/// Whether `data` starts with `prefix`.
pub open spec fn starts_with(data: Seq<u8>, prefix: Seq<u8>) -> bool {
    prefix.len() <= data.len() && data.subrange(0, prefix.len() as int) == prefix
}

/// The format that the magic bytes at the start of `data` announce.
pub open spec fn spec_image_data_format(data: Seq<u8>) -> Option<ImageFormat> {
    if starts_with(data, png_signature()) {
        Some(ImageFormat::PNG)
    } else if starts_with(data, jpeg_signature()) {
        Some(ImageFormat::JPEG)
    } else {
        None
    }
}

/// Checks whether `data` starts with the magic bytes `prefix`.
fn has_prefix(data: &[u8], prefix: &[u8]) -> (r: bool)
    ensures
        r == starts_with(data@, prefix@),
{
    if prefix.len() > data.len() {
        return false;
    }
    let mut i: usize = 0;
    while i < prefix.len()
        invariant
            prefix.len() <= data.len(),
            i <= prefix.len(),
            forall|j: int| 0 <= j < i ==> data@[j] == prefix@[j],
        decreases prefix.len() - i,
    {
        if data[i] != prefix[i] {
            assert(data@.subrange(0, prefix@.len() as int)[i as int] != prefix@[i as int]);
            return false;
        }
        i = i + 1;
    }
    assert(data@.subrange(0, prefix@.len() as int) =~= prefix@);
    true
}

/// Checks that the data has PNG or JPEG magic bytes.
pub fn get_image_data_format(data: &[u8]) -> (r: Option<ImageFormat>)
    ensures
        r == spec_image_data_format(data@),
{
    let png: [u8; 8] = [0x89, 0x50, 0x4e, 0x47, 0x0d, 0x0a, 0x1a, 0x0a];
    let jpeg: [u8; 3] = [0xff, 0xd8, 0xff];
    assert(png@ =~= png_signature());
    assert(jpeg@ =~= jpeg_signature());
    if has_prefix(data, png.as_slice()) {
        Some(ImageFormat::PNG)
    } else if has_prefix(data, jpeg.as_slice()) {
        Some(ImageFormat::JPEG)
    } else {
        None
    }
}


/// The lower-case form of `s`, as `str::to_lowercase` computes it.
pub uninterp spec fn spec_to_lowercase(s: Seq<char>) -> Seq<char>;

/// Calls `str::to_lowercase`.
///
/// The contract only names the result, a function of `s` alone; the
/// Unicode case mapping is not written out.
#[verifier::external_body]
fn to_lowercase(s: &str) -> (r: String)
    ensures
        r@ == spec_to_lowercase(s@),
{
    s.to_lowercase()
}

/// The format of an image file with the file name extension `extension`
/// and the contents `data`.
pub open spec fn spec_image_file_format(extension: Option<Seq<char>>, data: Seq<u8>) -> Option<ImageFormat> {
    match extension {
        None => None,
        Some(ext) => {
            let lower = spec_to_lowercase(ext);
            if lower == "svg"@ || lower == "svgz"@ {
                Some(ImageFormat::SVG)
            } else if data.len() < 8 {
                None
            } else {
                spec_image_data_format(data.take(8))
            }
        },
    }
}

/// Checks that a file has an SVG(Z) extension, or PNG or JPEG magic bytes
/// in its first eight bytes.
pub fn get_image_file_format(extension: Option<&str>, data: &[u8]) -> (r: Option<ImageFormat>)
    ensures
        r == spec_image_file_format(
            match extension {
                Some(e) => Some(e@),
                None => None,
            },
            data@,
        ),
{
    let ext = match extension {
        Some(e) => e,
        None => return None,
    };
    let lower = to_lowercase(ext);
    if str_eq(lower.as_str(), "svg") || str_eq(lower.as_str(), "svgz") {
        return Some(ImageFormat::SVG);
    }
    if data.len() < 8 {
        return None;
    }
    let r = get_image_data_format(data);
    proof {
        let head = data@.take(8);
        assert(head.subrange(0, 8) =~= data@.subrange(0, 8));
        assert(head.subrange(0, 3) =~= data@.subrange(0, 3));
    }
    r
}

/// The parts of a `data:` URL: the MIME type and subtype, and the decoded
/// body (`None` when the body does not decode).
pub struct DataUrlParts {
    pub mime_type: String,
    pub mime_subtype: String,
    pub body: Option<Vec<u8>>,
}

/// The view of an optional byte vector.
pub open spec fn opt_bytes(b: Option<Vec<u8>>) -> Option<Seq<u8>> {
    match b {
        Some(v) => Some(v@),
        None => None,
    }
}

/// The view of the parts of a `data:` URL.
pub open spec fn parts_view(p: Option<DataUrlParts>) -> Option<(Seq<char>, Seq<char>, Option<Seq<u8>>)> {
    match p {
        Some(parts) => Some((parts.mime_type@, parts.mime_subtype@, opt_bytes(parts.body))),
        None => None,
    }
}

/// What the `data_url` crate reads from `href`: `None` when `href` is not
/// a `data:` URL, else its MIME type, subtype and decoded body.
pub uninterp spec fn spec_data_url(href: Seq<char>) -> Option<(Seq<char>, Seq<char>, Option<Seq<u8>>)>;

/// Processes `href` with `data_url::DataUrl::process` and, when it is a
/// `data:` URL, returns `mime_type().type_`, `mime_type().subtype` and the
/// body from `decode_to_vec` (`None` on a decoding error).
///
/// The contract only names the result, a function of `href` alone; the
/// URL and MIME grammars of the crate are not written out.
#[verifier::external_body]
fn decode_data_url(href: &str) -> (r: Option<DataUrlParts>)
    ensures
        parts_view(r) == spec_data_url(href@),
{
    match data_url::DataUrl::process(href) {
        Ok(url) => Some(DataUrlParts {
            mime_type: url.mime_type().type_.clone(),
            mime_subtype: url.mime_type().subtype.clone(),
            body: url.decode_to_vec().ok().map(|(data, _)| data),
        }),
        Err(_) => None,
    }
}

/// Image data found through an `xlink:href`: its format and bytes. SVG
/// data is to be loaded as a nested SVG document.
pub struct HrefData {
    pub format: ImageFormat,
    pub data: Vec<u8>,
}

/// The view of optional image data.
pub open spec fn href_view(h: Option<HrefData>) -> Option<(ImageFormat, Seq<u8>)> {
    match h {
        Some(d) => Some((d.format, d.data@)),
        None => None,
    }
}

/// The image that a `data:` URL with the given MIME type, subtype and
/// decoded body holds.
pub open spec fn spec_classify_data_url(
    mime_type: Seq<char>,
    mime_subtype: Seq<char>,
    body: Option<Seq<u8>>,
) -> Option<(ImageFormat, Seq<u8>)> {
    match body {
        None => None,
        Some(data) => if mime_type == "image"@ && (mime_subtype == "jpg"@ || mime_subtype == "jpeg"@) {
            Some((ImageFormat::JPEG, data))
        } else if mime_type == "image"@ && mime_subtype == "png"@ {
            Some((ImageFormat::PNG, data))
        } else if mime_type == "image"@ && mime_subtype == "svg+xml"@ {
            Some((ImageFormat::SVG, data))
        } else if mime_type == "text"@ && mime_subtype == "plain"@ {
            match spec_image_data_format(data) {
                Some(ImageFormat::JPEG) => Some((ImageFormat::JPEG, data)),
                Some(ImageFormat::PNG) => Some((ImageFormat::PNG, data)),
                _ => Some((ImageFormat::SVG, data)),
            }
        } else {
            None
        },
    }
}

/// Picks the image kind of a `data:` URL from its MIME type and decoded
/// body. Plain text is sniffed for PNG and JPEG magic bytes and read as
/// SVG otherwise.
pub fn classify_data_url(mime_type: &str, mime_subtype: &str, body: Option<Vec<u8>>) -> (r: Option<HrefData>)
    ensures
        href_view(r) == spec_classify_data_url(mime_type@, mime_subtype@, opt_bytes(body)),
{
    let data = match body {
        Some(d) => d,
        None => return None,
    };
    if str_eq(mime_type, "image") {
        if str_eq(mime_subtype, "jpg") || str_eq(mime_subtype, "jpeg") {
            return Some(HrefData { format: ImageFormat::JPEG, data });
        } else if str_eq(mime_subtype, "png") {
            return Some(HrefData { format: ImageFormat::PNG, data });
        } else if str_eq(mime_subtype, "svg+xml") {
            return Some(HrefData { format: ImageFormat::SVG, data });
        }
        proof {
            reveal_strlit("image");
            reveal_strlit("text");
            assert("image"@[0] != "text"@[0]);
        }
        return None;
    }
    if str_eq(mime_type, "text") && str_eq(mime_subtype, "plain") {
        let format = match get_image_data_format(data.as_slice()) {
            Some(ImageFormat::JPEG) => ImageFormat::JPEG,
            Some(ImageFormat::PNG) => ImageFormat::PNG,
            _ => ImageFormat::SVG,
        };
        return Some(HrefData { format, data });
    }
    None
}

/// Reads the image data of an `xlink:href` that is a `data:` URL.
///
/// Returns `None` when `href` is not a `data:` URL (it is then a file
/// path), and `Some(None)` when the URL holds no supported image.
pub fn load_data_url(href: &str) -> (r: Option<Option<HrefData>>)
    ensures
        match spec_data_url(href@) {
            None => r is None,
            Some((t, st, body)) => r is Some && href_view(r->0) == spec_classify_data_url(t, st, body),
        },
{
    match decode_data_url(href) {
        None => None,
        Some(parts) => Some(classify_data_url(parts.mime_type.as_str(), parts.mime_subtype.as_str(), parts.body)),
    }
}


/// The digit of the standard base64 alphabet with value `v` (`0..64`).
pub open spec fn base64_digit(v: int) -> char {
    "ABCDEFGHIJKLMNOPQRSTUVWXYZabcdefghijklmnopqrstuvwxyz0123456789+/"@[v]
}

/// The standard base64 encoding of `data`, with `=` padding.
pub open spec fn base64_standard(data: Seq<u8>) -> Seq<char>
    decreases data.len(),
{
    if data.len() == 0 {
        seq![]
    } else if data.len() == 1 {
        let b0 = data[0] as int;
        seq![base64_digit(b0 / 4), base64_digit((b0 % 4) * 16), '=', '=']
    } else if data.len() == 2 {
        let b0 = data[0] as int;
        let b1 = data[1] as int;
        seq![
            base64_digit(b0 / 4),
            base64_digit((b0 % 4) * 16 + b1 / 16),
            base64_digit((b1 % 16) * 4),
            '=',
        ]
    } else {
        let b0 = data[0] as int;
        let b1 = data[1] as int;
        let b2 = data[2] as int;
        seq![
            base64_digit(b0 / 4),
            base64_digit((b0 % 4) * 16 + b1 / 16),
            base64_digit((b1 % 16) * 4 + b2 / 64),
            base64_digit(b2 % 64),
        ] + base64_standard(data.subrange(3, data.len() as int))
    }
}

/// The length of the padded base64 encoding of `n` bytes.
pub open spec fn encoded_len(n: nat) -> nat {
    if n % 3 == 0 {
        n / 3 * 4
    } else {
        n / 3 * 4 + 4
    }
}

/// Encodes bytes with `base64::encode`, the standard alphabet with
/// padding.
///
/// The contract states the standard base64 encoding of RFC 4648 in full;
/// `requires` excludes inputs whose encoded length overflows a `usize`,
/// on which the crate panics.
#[verifier::external_body]
fn base64_encode(data: &[u8]) -> (r: String)
    requires
        encoded_len(data@.len()) <= usize::MAX,
    ensures
        r@ == base64_standard(data@),
{
    base64::encode(data)
}

/// The MIME subtype under which an image is embedded.
pub open spec fn embedded_mime(format: ImageFormat) -> Seq<char> {
    match format {
        ImageFormat::JPEG => "jpg"@,
        ImageFormat::PNG => "png"@,
        ImageFormat::SVG => "svg+xml"@,
    }
}

/// Builds the `xlink:href` value that embeds image bytes as a base64
/// `data:` URL.
pub fn image_data_href(format: ImageFormat, data: &[u8]) -> (r: String)
    requires
        encoded_len(data@.len()) <= usize::MAX,
    ensures
        r@ == "data:image/"@ + embedded_mime(format) + ";base64, "@ + base64_standard(data@),
{
    let mut href = String::new();
    href.append("data:image/");
    let mime = match format {
        ImageFormat::JPEG => "jpg",
        ImageFormat::PNG => "png",
        ImageFormat::SVG => "svg+xml",
    };
    href.append(mime);
    href.append(";base64, ");
    let encoded = base64_encode(data);
    href.append(encoded.as_str());
    assert(href@ =~= "data:image/"@ + embedded_mime(format) + ";base64, "@ + base64_standard(data@));
    href
}

} // verus!
