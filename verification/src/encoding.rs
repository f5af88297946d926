use base64::Engine;
use vstd::prelude::*;
use vstd::utf8::{decode_utf8, valid_utf8};

verus! {

/// What the `base64` crate's standard engine (`general_purpose::STANDARD`) encodes `bytes` to.
pub uninterp spec fn base64_of(bytes: Seq<u8>) -> Seq<char>;

/// What the `base64` crate's standard engine decodes `text` to, or the message of its error.
pub uninterp spec fn base64_decoded(text: Seq<char>) -> Result<Seq<u8>, Seq<char>>;

/// What `html2text::from_read` renders from the HTML in `bytes` at `width` columns, or the
/// message of its error.
pub uninterp spec fn html_text(bytes: Seq<u8>, width: usize) -> Result<Seq<char>, Seq<char>>;

/// `base64::engine::general_purpose::STANDARD.encode`. Claimed: the result is `base64_of` of
/// the bytes. That decoding it gives the bytes back is not stated.
#[verifier::external_body]
pub(crate) fn encode_base64(bytes: &[u8]) -> (encoded: String)
    ensures
        encoded@ == base64_of(bytes@),
{
    base64::engine::general_purpose::STANDARD.encode(bytes)
}

/// `base64::engine::general_purpose::STANDARD.decode`, with its error turned into its message.
/// Claimed: the result is `base64_decoded` of the text; and, as the engine decodes exactly the
/// canonical padded encodings and gives back what was encoded, the text is refused only when
/// it encodes no bytes, and the bytes it gives are the only ones that encode to it.
#[verifier::external_body]
pub(crate) fn decode_base64(text: &str) -> (r: Result<Vec<u8>, String>)
    ensures
        match r {
            Ok(b) => base64_decoded(text@) == Ok::<Seq<u8>, Seq<char>>(b@),
            Err(e) => base64_decoded(text@) == Err::<Seq<u8>, Seq<char>>(e@),
        },
        r matches Ok(b) ==> forall|x: Seq<u8>| base64_of(x) == text@ ==> x == b@,
        r is Err ==> forall|x: Seq<u8>| base64_of(x) != text@,
{
    base64::engine::general_purpose::STANDARD.decode(text).map_err(|e| e.to_string())
}

/// `html2text::from_read` over the bytes, with its error turned into its message. Claimed: the
/// result is `html_text` of the bytes and the width.
#[verifier::external_body]
pub(crate) fn html_to_text(bytes: &[u8], width: usize) -> (r: Result<String, String>)
    ensures
        match r {
            Ok(t) => html_text(bytes@, width) == Ok::<Seq<char>, Seq<char>>(t@),
            Err(e) => html_text(bytes@, width) == Err::<Seq<char>, Seq<char>>(e@),
        },
{
    html2text::from_read(bytes, width).map_err(|e| e.to_string())
}

/// `std::str::from_utf8`: the text when the bytes are valid UTF-8, none otherwise.
#[verifier::external_body]
pub(crate) fn utf8_text(bytes: &[u8]) -> (r: Option<String>)
    ensures
        r is Some <==> valid_utf8(bytes@),
        r matches Some(s) ==> s@ == decode_utf8(bytes@),
{
    match std::str::from_utf8(bytes) {
        Ok(s) => Some(s.to_string()),
        Err(_) => None,
    }
}

} // verus!
