//! Image references: where an image comes from, data URIs and their
//! payloads, and media types.

use crate::text::{
    contains, contains_seq, find_char, find_char_from, has_prefix, lowercase, starts_with_str_at,
    str_equals, string_from_range, to_chars, to_lowercase,
};
use vstd::prelude::*;
use vstd::string::*;
use vstd::utf8::{decode_utf8, valid_utf8};

verus! {

/// Why base64 refused an input.
#[verifier::external_type_specification]
#[verifier::external_body]
pub struct ExDecodeError(base64::DecodeError);

/// What the standard base64 engine (standard alphabet, canonical padding)
/// decodes a text to, none where it refuses the text.
pub uninterp spec fn base64_decoded(data: Seq<char>) -> Option<Seq<u8>>;

/// What the standard base64 engine encodes bytes to.
pub uninterp spec fn base64_encoded(data: Seq<u8>) -> Seq<char>;

/// `base64::Engine::decode` on the engine `STANDARD`: the outcome is a
/// function of the text alone, named `base64_decoded`; an error stands for a
/// text that the engine refuses.
#[verifier::external_body]
fn base64_decode(data: &str) -> (r: Result<Vec<u8>, base64::DecodeError>)
    ensures
        match r {
            Ok(bytes) => base64_decoded(data@) == Some(bytes@),
            Err(_) => base64_decoded(data@).is_none(),
        },
{
    base64::Engine::decode(&base64::engine::general_purpose::STANDARD, data)
}

/// `base64::Engine::encode` on the engine `STANDARD`: the result is a
/// function of the bytes alone, named `base64_encoded`. The engine gives up
/// on an input whose encoded length does not fit a `usize`, which the
/// precondition leaves out.
#[verifier::external_body]
fn base64_encode(data: &Vec<u8>) -> (r: String)
    requires
        (data@.len() / 3 + 1) * 4 <= usize::MAX,
    ensures
        r@ == base64_encoded(data@),
{
    base64::Engine::encode(&base64::engine::general_purpose::STANDARD, data)
}

/// `String::from_utf8`: the string that the bytes encode, where they are
/// valid UTF-8, and nothing where they are not.
#[verifier::external_body]
fn string_from_utf8(bytes: Vec<u8>) -> (r: Option<String>)
    ensures
        match r {
            Some(s) => valid_utf8(bytes@) && s@ == decode_utf8(bytes@),
            None => !valid_utf8(bytes@),
        },
{
    String::from_utf8(bytes).ok()
}

/// Where an image reference points.
#[derive(Clone, Copy, Debug, PartialEq, Eq, Structural)]
pub enum ImageSource {
    /// The reference holds the image itself, as a data URI.
    DataUri,
    /// The image is fetched over HTTP.
    Remote,
    /// The image is a file, named by a path.
    LocalFile,
}

/// Where the reference `url` points.
pub open spec fn source_of(url: Seq<char>) -> ImageSource {
    if has_prefix(url, "data:"@) {
        ImageSource::DataUri
    } else if has_prefix(url, "http://"@) || has_prefix(url, "https://"@) {
        ImageSource::Remote
    } else {
        ImageSource::LocalFile
    }
}

/// Says where an image reference points.
pub fn image_source(url: &str) -> (source: ImageSource)
    ensures
        source == source_of(url@),
{
    let v = to_chars(url);
    if starts_with_str_at(&v, 0, "data:") {
        ImageSource::DataUri
    } else if starts_with_str_at(&v, 0, "http://") || starts_with_str_at(&v, 0, "https://") {
        ImageSource::Remote
    } else {
        ImageSource::LocalFile
    }
}

/// A source that is not a path to a local file: a web address, a data URI or
/// a file URL.
pub open spec fn is_foreign_source(src: Seq<char>) -> bool {
    has_prefix(src, "http://"@) || has_prefix(src, "https://"@) || has_prefix(src, "data:"@)
        || has_prefix(src, "file://"@)
}

/// Whether a source is left as it is when local images are embedded.
pub fn foreign_source(src: &str) -> (b: bool)
    ensures
        b == is_foreign_source(src@),
{
    let v = to_chars(src);
    starts_with_str_at(&v, 0, "http://") || starts_with_str_at(&v, 0, "https://")
        || starts_with_str_at(&v, 0, "data:") || starts_with_str_at(&v, 0, "file://")
}

/// The media type that a file extension in lowercase stands for.
pub open spec fn media_type(lower: Seq<char>) -> Seq<char> {
    if lower == "png"@ {
        "image/png"@
    } else if lower == "jpg"@ || lower == "jpeg"@ {
        "image/jpeg"@
    } else if lower == "gif"@ {
        "image/gif"@
    } else if lower == "webp"@ {
        "image/webp"@
    } else if lower == "svg"@ {
        "image/svg+xml"@
    } else if lower == "bmp"@ {
        "image/bmp"@
    } else if lower == "ico"@ {
        "image/x-icon"@
    } else {
        "application/octet-stream"@
    }
}

/// The media type that the file extension `e`, in lowercase, stands for.
pub fn media_type_of(e: &str) -> (mime: String)
    ensures
        mime@ == media_type(e@),
{
    let name = if str_equals(e, "png") {
        "image/png"
    } else if str_equals(e, "jpg") || str_equals(e, "jpeg") {
        "image/jpeg"
    } else if str_equals(e, "gif") {
        "image/gif"
    } else if str_equals(e, "webp") {
        "image/webp"
    } else if str_equals(e, "svg") {
        "image/svg+xml"
    } else if str_equals(e, "bmp") {
        "image/bmp"
    } else if str_equals(e, "ico") {
        "image/x-icon"
    } else {
        "application/octet-stream"
    };
    name.to_owned()
}

/// The media type of a file with the extension `extension`, letter case
/// aside.
pub fn mime_for_extension(extension: &str) -> (mime: String)
    ensures
        mime@ == media_type(lowercase(extension@)),
{
    let lower = to_lowercase(extension);
    media_type_of(lower.as_str())
}

/// The data URI that holds `encoded`, base64 text, as data of type `mime`.
pub open spec fn data_uri_of(mime: Seq<char>, encoded: Seq<char>) -> Seq<char> {
    "data:"@ + mime + ";base64,"@ + encoded
}

/// Frames base64 text as a data URI of the media type `mime`.
pub fn frame_data_uri(mime: &str, encoded: &str) -> (uri: String)
    ensures
        uri@ == data_uri_of(mime@, encoded@),
{
    let mut uri = String::new();
    uri.append("data:");
    uri.append(mime);
    uri.append(";base64,");
    uri.append(encoded);
    uri
}

/// Whether bytes of this number can be encoded: the encoded length has to
/// fit a `usize`.
pub open spec fn encodable(len: nat) -> bool {
    (len / 3 + 1) * 4 <= usize::MAX
}

/// The data URI that holds `data` as data of the media type `mime`; none
/// where `data` is too long to be encoded.
pub fn data_uri(mime: &str, data: &Vec<u8>) -> (uri: Option<String>)
    ensures
        match uri {
            Some(u) => encodable(data@.len()) && u@ == data_uri_of(mime@, base64_encoded(data@)),
            None => !encodable(data@.len()),
        },
{
    if data.len() / 3 >= usize::MAX / 4 {
        return None;
    }
    let encoded = base64_encode(data);
    Some(frame_data_uri(mime, encoded.as_str()))
}

/// Why a data URI holds no image.
#[derive(Clone, Copy, Debug, PartialEq, Eq, Structural)]
pub enum DataUriError {
    /// No comma parts the header from the data.
    MissingComma,
    /// The data is no base64.
    InvalidBase64,
    /// The data of a vector image is no UTF-8 text.
    InvalidUtf8,
}

/// What a data URI holds.
#[derive(Clone, Debug, PartialEq, Eq)]
pub enum ImagePayload {
    /// The text of a vector image, to be rasterized.
    Svg(String),
    /// The bytes of a raster image, to be decoded.
    Raster(Vec<u8>),
}

/// What an image payload is.
pub enum PayloadModel {
    Svg(Seq<char>),
    Raster(Seq<u8>),
}

impl View for ImagePayload {
    type V = PayloadModel;

    open spec fn view(&self) -> PayloadModel {
        match self {
            ImagePayload::Svg(text) => PayloadModel::Svg(text@),
            ImagePayload::Raster(bytes) => PayloadModel::Raster(bytes@),
        }
    }
}

/// The payload that decoded bytes are, by the header of their data URI: a
/// vector image where the header names `image/svg`, which has to be UTF-8
/// text; else a raster image.
pub open spec fn payload_of(header: Seq<char>, bytes: Seq<u8>) -> Result<
    PayloadModel,
    DataUriError,
> {
    if contains_seq(header, "image/svg"@) {
        if valid_utf8(bytes) {
            Ok(PayloadModel::Svg(decode_utf8(bytes)))
        } else {
            Err(DataUriError::InvalidUtf8)
        }
    } else {
        Ok(PayloadModel::Raster(bytes))
    }
}

/// What the data URI `uri` holds: the header ends at the first comma, and
/// what follows is base64.
pub open spec fn data_uri_payload(uri: Seq<char>) -> Result<PayloadModel, DataUriError> {
    let comma = find_char_from(uri, 0, ',');
    if comma >= uri.len() {
        Err(DataUriError::MissingComma)
    } else {
        match base64_decoded(uri.subrange(comma + 1, uri.len() as int)) {
            Some(bytes) => payload_of(uri.subrange(0, comma), bytes),
            None => Err(DataUriError::InvalidBase64),
        }
    }
}

/// Sorts decoded bytes by the header of their data URI.
pub fn classify_payload(header: &str, bytes: Vec<u8>) -> (r: Result<ImagePayload, DataUriError>)
    ensures
        match r {
            Ok(payload) => payload_of(header@, bytes@) == Ok::<PayloadModel, DataUriError>(
                payload@,
            ),
            Err(e) => payload_of(header@, bytes@) == Err::<PayloadModel, DataUriError>(e),
        },
{
    let h = to_chars(header);
    let mark = to_chars("image/svg");
    if contains(&h, &mark) {
        match string_from_utf8(bytes) {
            Some(text) => Ok(ImagePayload::Svg(text)),
            None => Err(DataUriError::InvalidUtf8),
        }
    } else {
        Ok(ImagePayload::Raster(bytes))
    }
}

/// Reads a data URI: its header up to the first comma, and its data, which
/// is decoded from base64.
pub fn decode_data_uri(uri: &str) -> (r: Result<ImagePayload, DataUriError>)
    ensures
        match r {
            Ok(payload) => data_uri_payload(uri@) == Ok::<PayloadModel, DataUriError>(payload@),
            Err(e) => data_uri_payload(uri@) == Err::<PayloadModel, DataUriError>(e),
        },
{
    let v = to_chars(uri);
    let comma = find_char(&v, 0, ',');
    if comma >= v.len() {
        return Err(DataUriError::MissingComma);
    }
    let header = string_from_range(&v, 0, comma);
    let data = string_from_range(&v, comma + 1, v.len());
    match base64_decode(data.as_str()) {
        Ok(bytes) => classify_payload(header.as_str(), bytes),
        Err(_) => Err(DataUriError::InvalidBase64),
    }
}


/// The extension of a vector image: `svg`, in any letter case.
pub open spec fn is_svg(extension: Seq<char>) -> bool {
    &&& extension.len() == 3
    &&& (extension[0] == 's' || extension[0] == 'S')
    &&& (extension[1] == 'v' || extension[1] == 'V')
    &&& (extension[2] == 'g' || extension[2] == 'G')
}

/// Whether a file extension is that of a vector image.
pub fn is_svg_extension(extension: &str) -> (b: bool)
    ensures
        b == is_svg(extension@),
{
    let e = to_chars(extension);
    e.len() == 3 && (e[0] == 's' || e[0] == 'S') && (e[1] == 'v' || e[1] == 'V') && (e[2] == 'g'
        || e[2] == 'G')
}

/// The markdown of an image with alternative text `alt` at `target`.
pub open spec fn image_markdown_of(alt: Seq<char>, target: Seq<char>) -> Seq<char> {
    "!["@ + alt + "]("@ + target + ")"@
}

/// Writes an image reference in markdown.
pub fn image_markdown(alt: &str, target: &str) -> (r: String)
    ensures
        r@ == image_markdown_of(alt@, target@),
{
    let mut r = String::new();
    r.append("![");
    r.append(alt);
    r.append("](");
    r.append(target);
    r.append(")");
    r
}

} // verus!
