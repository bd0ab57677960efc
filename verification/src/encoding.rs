//! The encoded representation of an image: a `data:` URL made of a MIME type
//! and the base64 text of the image's bytes.

use crate::error::{prefixed, AssetError};
use crate::text::{
    ascii_lowercase, chars_of, find_first_from, find_last, first_index_of, lacks, last_index_of,
    lemma_first_index_of, lemma_first_index_skips, lemma_last_index_of, reads_ignoring_case,
};
use base64::Engine;
use vstd::prelude::*;

verus! {

/// What follows the last dot of a file name; none where the name has no dot,
/// or only the one it starts with.
pub open spec fn extension(name: Seq<char>) -> Option<Seq<char>> {
    match last_index_of(name, '.') {
        Some(dot) => if dot > 0 {
            Some(name.skip(dot + 1))
        } else {
            None
        },
        None => None,
    }
}

/// The MIME type that a file name's extension stands for, letter case set
/// aside. A name without extension, or with one that is not listed, is taken
/// for a PNG image.
pub open spec fn mime_type(name: Seq<char>) -> Seq<char> {
    match extension(name) {
        Some(ext) => {
            let folded = ascii_lowercase(ext);
            if folded == "jpg"@ || folded == "jpeg"@ {
                "image/jpeg"@
            } else if folded == "gif"@ {
                "image/gif"@
            } else if folded == "webp"@ {
                "image/webp"@
            } else {
                "image/png"@
            }
        },
        None => "image/png"@,
    }
}

/// The MIME type for the file name `name`.
pub fn mime_for(name: &str) -> (mime: &'static str)
    ensures
        mime@ == mime_type(name@),
{
    let chars = chars_of(name);
    proof {
        lemma_last_index_of(name@, '.');
    }
    match find_last(&chars, '.') {
        Some(dot) => {
            if dot == 0 {
                "image/png"
            } else if reads_ignoring_case(&chars, dot + 1, "jpg") || reads_ignoring_case(
                &chars,
                dot + 1,
                "jpeg",
            ) {
                "image/jpeg"
            } else if reads_ignoring_case(&chars, dot + 1, "gif") {
                "image/gif"
            } else if reads_ignoring_case(&chars, dot + 1, "webp") {
                "image/webp"
            } else {
                "image/png"
            }
        },
        None => "image/png",
    }
}

/// The base64 text of `bytes`: standard alphabet, padded.
pub uninterp spec fn base64_text(bytes: Seq<u8>) -> Seq<char>;

/// The bytes that the base64 text `text` stands for; none where `text` is not
/// the padded standard encoding of anything.
pub uninterp spec fn base64_bytes(text: Seq<char>) -> Option<Seq<u8>>;

/// `base64::DecodeError`: why a text was not accepted. It is handed on
/// unopened.
#[verifier::external_type_specification]
#[verifier::external_body]
pub struct ExDecodeError(base64::DecodeError);

/// `Engine::encode` of the `base64` crate on its `STANDARD` engine. Believed,
/// not proved: the text is a function of the bytes alone, and decoding it
/// with the same engine gives the bytes back.
#[verifier::external_body]
pub(crate) fn base64_encode(bytes: &[u8]) -> (text: String)
    ensures
        text@ == base64_text(bytes@),
        base64_bytes(text@) == Some(bytes@),
{
    base64::engine::general_purpose::STANDARD.encode(bytes)
}

/// `Engine::decode` of the `base64` crate on its `STANDARD` engine. Believed,
/// not proved: whether the text is accepted, and the bytes it then yields,
/// depend on the text alone.
#[verifier::external_body]
fn base64_decode(text: &str) -> (decoded: Result<Vec<u8>, base64::DecodeError>)
    ensures
        match decoded {
            Ok(bytes) => base64_bytes(text@) == Some(bytes@),
            Err(_) => base64_bytes(text@) is None,
        },
{
    base64::engine::general_purpose::STANDARD.decode(text)
}

/// The `Display` text of a `base64::DecodeError`. Nothing is claimed of it.
#[verifier::external_body]
fn decode_error_text(error: &base64::DecodeError) -> String {
    error.to_string()
}

/// The URL `data:<mime>;base64,<payload>`.
pub open spec fn data_url(mime: Seq<char>, payload: Seq<char>) -> Seq<char> {
    "data:"@ + mime + ";base64,"@ + payload
}

/// The encoded representation of the asset called `name` that holds `bytes`.
pub open spec fn rendering(name: Seq<char>, bytes: Seq<u8>) -> Seq<char> {
    data_url(mime_type(name), base64_text(bytes))
}

/// What follows the first comma of `url`: in a `data:` URL, the payload.
pub open spec fn payload_text(url: Seq<char>) -> Option<Seq<char>> {
    match first_index_of(url, ',') {
        Some(comma) => Some(url.skip(comma + 1)),
        None => None,
    }
}

/// The bytes that the payload of `url` stands for.
pub open spec fn payload_bytes(url: Seq<char>) -> Option<Seq<u8>> {
    match payload_text(url) {
        Some(text) => base64_bytes(text),
        None => None,
    }
}

/// A MIME type that `mime_type` gives holds no comma.
pub proof fn lemma_mime_has_no_comma(name: Seq<char>)
    ensures
        lacks(mime_type(name), ','),
{
    reveal_strlit("image/jpeg");
    reveal_strlit("image/gif");
    reveal_strlit("image/webp");
    reveal_strlit("image/png");
}

/// The payload of the URL made of a comma-free MIME type and `payload` is
/// `payload`.
pub proof fn lemma_payload_of_data_url(mime: Seq<char>, payload: Seq<char>)
    requires
        lacks(mime, ','),
    ensures
        payload_text(data_url(mime, payload)) == Some(payload),
{
    reveal_strlit("data:");
    reveal_strlit(";base64,");
    let head = "data:"@ + mime + ";base64"@;
    reveal_strlit(";base64");
    let tail = seq![','] + payload;
    assert(data_url(mime, payload) =~= head + tail);
    assert(lacks(head, ',')) by {
        assert forall|i: int| 0 <= i < head.len() implies head[i] != ',' by {
            if i < 5 {
                assert(head[i] == "data:"@[i]);
            } else if i < 5 + mime.len() {
                assert(head[i] == mime[i - 5]);
            } else {
                assert(head[i] == ";base64"@[i - 5 - mime.len()]);
            }
        }
    }
    lemma_first_index_skips(head, tail, ',');
    assert(tail.first() == ',');
    assert((head + tail).skip(head.len() as int + 1) =~= payload);
}

/// Puts `mime` and `payload` together as a `data:` URL.
pub fn make_data_url(mime: &str, payload: &str) -> (url: String)
    ensures
        url@ == data_url(mime@, payload@),
{
    let mut url = String::from_str("data:");
    url.append(mime);
    url.append(";base64,");
    url.append(payload);
    url
}

/// The encoded representation of the asset called `name` that holds `bytes`.
/// Decoding its payload gives `bytes` back.
pub fn render(name: &str, bytes: &[u8]) -> (url: String)
    ensures
        url@ == rendering(name@, bytes@),
        payload_bytes(url@) == Some(bytes@),
{
    let mime = mime_for(name);
    let payload = base64_encode(bytes);
    proof {
        lemma_mime_has_no_comma(name@);
        lemma_payload_of_data_url(mime@, payload@);
    }
    make_data_url(mime, payload.as_str())
}

/// The bytes that the payload of the `data:` URL `url` stands for; none where
/// `url` holds no comma or what follows its first comma is not base64.
pub fn decode_payload(url: &str) -> (bytes: Option<Vec<u8>>)
    ensures
        match bytes {
            Some(b) => payload_bytes(url@) == Some(b@),
            None => payload_bytes(url@) is None,
        },
{
    let chars = chars_of(url);
    assert(chars@.skip(0) =~= chars@);
    match find_first_from(&chars, ',', 0) {
        Some(comma) => {
            proof {
                lemma_first_index_of(url@, ',');
            }
            let payload = url.substring_char(comma + 1, chars.len());
            assert(payload@ =~= url@.skip(comma + 1));
            match base64_decode(payload) {
                Ok(bytes) => Some(bytes),
                Err(_) => None,
            }
        },
        None => None,
    }
}

/// The message for image data that is not base64.
pub open spec fn bad_image_data_text(detail: Seq<char>) -> Seq<char> {
    "Failed to decode base64 image data: "@ + detail
}

/// Decodes image data that arrives as base64 text. Text that is not base64
/// is refused with an `Io` error whose message ends in the decoder's own
/// words.
pub fn decode_image_data(text: &str) -> (decoded: Result<Vec<u8>, AssetError>)
    ensures
        match decoded {
            Ok(bytes) => base64_bytes(text@) == Some(bytes@),
            Err(AssetError::Io(message)) => base64_bytes(text@) is None
                && exists|detail: Seq<char>| message@ == bad_image_data_text(detail),
            Err(_) => false,
        },
{
    match base64_decode(text) {
        Ok(bytes) => Ok(bytes),
        Err(error) => {
            let detail = decode_error_text(&error);
            let message = prefixed("Failed to decode base64 image data: ", detail.as_str());
            assert(message@ == bad_image_data_text(detail@));
            Err(AssetError::Io(message))
        },
    }
}

} // verus!
