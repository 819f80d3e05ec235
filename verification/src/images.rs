//! Images on the wire: base64 text and back.
use crate::thread::{ImageData, ImageDataView};
use vstd::prelude::*;

verus! {

/// The standard base64 form of bytes.
pub uninterp spec fn base64_text(bytes: Seq<u8>) -> Seq<char>;

/// The bytes that a text stands for in standard base64, where it is base64.
pub uninterp spec fn base64_bytes(text: Seq<char>) -> Option<Seq<u8>>;

/// `base64::engine::general_purpose::STANDARD.encode`: the text depends on the
/// bytes alone.
#[verifier::external_body]
pub(crate) fn encode_base64(bytes: &Vec<u8>) -> (r: String)
    ensures
        r@ == base64_text(bytes@),
{
    base64::Engine::encode(&base64::engine::general_purpose::STANDARD, bytes)
}

/// `base64::engine::general_purpose::STANDARD.decode`: whether the text is
/// accepted, and the bytes, depend on the text alone; what was encoded decodes
/// to the same bytes.
#[verifier::external_body]
pub(crate) fn decode_base64(text: &str) -> (r: Option<Vec<u8>>)
    ensures
        r.deep_view() == base64_bytes(text@),
        forall|bytes: Seq<u8>|
            text@ == #[trigger] base64_text(bytes) ==> r.deep_view() == Some(bytes),
{
    base64::Engine::decode(&base64::engine::general_purpose::STANDARD, text.as_bytes()).ok()
}

/// Decodes an image of a prompt. Nothing where the data is no base64 or the
/// media type is not one that can be shown, as `supported` says. What was
/// encoded on the wire decodes to the same bytes.
pub fn decode_image_local(data: &str, mime_type: &str, supported: bool) -> (r: Option<ImageData>)
    ensures
        r.deep_view() == (match base64_bytes(data@) {
            Some(bytes) => if supported {
                Some(ImageDataView { mime_type: mime_type@, bytes })
            } else {
                None
            },
            None => None,
        }),
        forall|bytes: Seq<u8>|
            supported && data@ == #[trigger] base64_text(bytes) ==> r.deep_view() == Some(
                ImageDataView { mime_type: mime_type@, bytes },
            ),
{
    let bytes = match decode_base64(data) {
        Some(bytes) => bytes,
        None => {
            return None;
        },
    };
    if !supported {
        return None;
    }
    Some(ImageData { mime_type: mime_type.to_owned(), bytes })
}

} // verus!
