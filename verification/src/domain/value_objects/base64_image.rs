//! An avatar image as it arrives: base64 text that must decode to a PNG or a JPEG.

use vstd::prelude::*;
use vstd::string::*;
use base64::Engine;

verus! {

/// The error of the `base64` crate's decoder. Nothing is read from it.
#[verifier::external_type_specification]
#[verifier::external_body]
pub struct ExDecodeError(base64::DecodeError);

/// What `base64::engine::general_purpose::STANDARD.decode` makes of `data`:
/// the bytes, or nothing where it reports an error.
pub uninterp spec fn base64_decoded(data: Seq<char>) -> Option<Seq<u8>>;

/// The MIME type that `infer::get` finds for `bytes`, or nothing where it finds none.
pub uninterp spec fn inferred_mime(bytes: Seq<u8>) -> Option<Seq<char>>;

/// Calls the decoder of the `base64` crate with the standard alphabet and
/// canonical padding.
///
/// Trusted: the decoder returns for every text, its result depends on the
/// text alone, and that result is what `base64_decoded` stands for.
#[verifier::external_body]
fn decode_standard(data: &str) -> (decoded: Result<Vec<u8>, base64::DecodeError>)
    ensures
        decoded matches Ok(bytes) ==> base64_decoded(data@) == Some(bytes@),
        decoded is Err ==> base64_decoded(data@) is None,
{
    base64::engine::general_purpose::STANDARD.decode(data)
}

/// Calls `infer::get` of the `infer` crate and hands back the MIME type of
/// the kind it found.
///
/// Trusted: on a machine whose `usize` has 64 bits `infer::get` returns for
/// every buffer, its result depends on the bytes alone, and the MIME type of
/// that result is what `inferred_mime` stands for.
///
/// Its matchers add to 32-bit fields of the buffer in `usize`. With 32 bits
/// such a sum can overflow, and the call then panics or does not return, so
/// narrower machines are left out.
#[verifier::external_body]
fn infer_mime(bytes: &Vec<u8>) -> (mime: Option<String>)
    requires
        usize::BITS == 64,
    ensures
        mime matches Some(text) ==> inferred_mime(bytes@) == Some(text@),
        mime is None ==> inferred_mime(bytes@) is None,
{
    match infer::get(bytes) {
        Some(kind) => Some(kind.mime_type().to_string()),
        None => None,
    }
}

/// Why an image was refused.
#[derive(Clone, Copy, Debug, PartialEq, Eq, Structural)]
pub enum ImageError {
    /// The text is empty.
    Empty,
    /// The text is not base64.
    InvalidBase64,
    /// The bytes are neither a PNG nor a JPEG.
    UnsupportedType,
}

impl ImageError {
    /// The message for the refusal.
    pub open spec fn text(self) -> Seq<char> {
        match self {
            ImageError::Empty => "Base64 image data cannot be empty !!"@,
            ImageError::InvalidBase64 => "Invalid base64 image data."@,
            ImageError::UnsupportedType => "Unsupported or invalid base64 image type."@,
        }
    }

    /// The message for the refusal.
    pub fn message(&self) -> (text: String)
        ensures
            text@ == self.text(),
    {
        match self {
            ImageError::Empty => "Base64 image data cannot be empty !!".to_owned(),
            ImageError::InvalidBase64 => "Invalid base64 image data.".to_owned(),
            ImageError::UnsupportedType => "Unsupported or invalid base64 image type.".to_owned(),
        }
    }
}

/// The two image types that an avatar may have.
pub open spec fn accepted_mime(mime: Seq<char>) -> bool {
    mime == "image/png"@ || mime == "image/jpeg"@
}

/// The data URL of base64 text `data` of type `mime`.
pub open spec fn data_url(mime: Seq<char>, data: Seq<char>) -> Seq<char> {
    "data:"@ + mime + ";base64,"@ + data
}

/// What becomes of image text `data`, given what the decoder made of it and
/// what type was found for the decoded bytes.
///
/// Empty text is refused first, then text that does not decode, then bytes of
/// any type but PNG and JPEG. What is left becomes a data URL.
pub open spec fn image_verdict(
    data: Seq<char>,
    decoded: Option<Seq<u8>>,
    mime: Option<Seq<char>>,
) -> Result<Seq<char>, ImageError> {
    if data.len() == 0 {
        Err(ImageError::Empty)
    } else if decoded is None {
        Err(ImageError::InvalidBase64)
    } else if mime is Some && accepted_mime(mime->0) {
        Ok(data_url(mime->0, data))
    } else {
        Err(ImageError::UnsupportedType)
    }
}

/// The MIME type found for the bytes that `data` decodes to, if it decodes.
pub open spec fn mime_of_decoded(data: Seq<char>) -> Option<Seq<char>> {
    match base64_decoded(data) {
        Some(bytes) => inferred_mime(bytes),
        None => None,
    }
}

/// The data URL for base64 text `data` whose bytes were found to be of type
/// `mime`, or `UnsupportedType` if that is neither PNG nor JPEG or if no type
/// was found.
pub fn data_url_for(mime: Option<&str>, data: &str) -> (url: Result<String, ImageError>)
    ensures
        url is Ok <==> mime is Some && accepted_mime(mime->0@),
        url matches Ok(text) ==> text@ == data_url(mime->0@, data@),
        url matches Err(refusal) ==> refusal == ImageError::UnsupportedType,
{
    match mime {
        Some(mime) => {
            let found = mime.to_owned();
            if found == "image/png".to_owned() || found == "image/jpeg".to_owned() {
                let url = String::from_str("data:").concat(mime).concat(";base64,").concat(data);
                Ok(url)
            } else {
                Err(ImageError::UnsupportedType)
            }
        },
        None => Err(ImageError::UnsupportedType),
    }
}

/// An image that passed the checks, as a data URL.
#[derive(Debug, Clone)]
pub struct Base64Image(String);

impl View for Base64Image {
    type V = Seq<char>;

    /// The data URL.
    closed spec fn view(&self) -> Seq<char> {
        self.0@
    }
}

impl Base64Image {
    /// Checks base64 text and makes the data URL of the image in it.
    ///
    /// The type of the image is found by the `infer` crate, which is safe to
    /// call only where `usize` has 64 bits.
    pub fn new(data: String) -> (image: Result<Base64Image, ImageError>)
        requires
            usize::BITS == 64,
        ensures
            image matches Ok(url) ==> image_verdict(
                data@,
                base64_decoded(data@),
                mime_of_decoded(data@),
            ) == Ok::<Seq<char>, ImageError>(url@),
            image matches Err(refusal) ==> image_verdict(
                data@,
                base64_decoded(data@),
                mime_of_decoded(data@),
            ) == Err::<Seq<char>, ImageError>(refusal),
            data@.len() == 0 ==> image matches Err(ImageError::Empty),
    {
        if data.as_str().unicode_len() == 0 {
            return Err(ImageError::Empty);
        }
        let bytes = match decode_standard(data.as_str()) {
            Ok(bytes) => bytes,
            Err(_) => {
                return Err(ImageError::InvalidBase64);
            },
        };
        let mime = infer_mime(&bytes);
        let url = match &mime {
            Some(text) => data_url_for(Some(text.as_str()), data.as_str()),
            None => data_url_for(None, data.as_str()),
        };
        match url {
            Ok(text) => Ok(Base64Image(text)),
            Err(refusal) => Err(refusal),
        }
    }

    /// The data URL.
    pub fn into_inner(self) -> (url: String)
        ensures
            url@ == self@,
    {
        self.0
    }
}

} // verus!
