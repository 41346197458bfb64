//! The metadata of a book as it is shown in a library view: title, creator,
//! and the cover image as a `data:` URI.

use vstd::prelude::*;

verus! {

/// The Base64 text of `data`: standard alphabet, padded with `=`.
pub uninterp spec fn base64_text(data: Seq<u8>) -> Seq<char>;

/// How many characters the Base64 text of `length` bytes has: four for
/// every three bytes, begun or complete.
pub open spec fn base64_length(length: nat) -> nat {
    if length % 3 == 0 {
        length / 3 * 4
    } else {
        length / 3 * 4 + 4
    }
}

/// Whether the Base64 text of `length` bytes has a length that fits a `usize`.
pub fn base64_fits(length: usize) -> (fits: bool)
    ensures
        fits == (base64_length(length as nat) <= usize::MAX),
{
    let begun: usize = if length % 3 == 0 {
        0
    } else {
        1
    };
    length / 3 <= usize::MAX / 4 - begun
}

/// Calls `encode` of `base64::Engine` on the engine
/// `general_purpose::STANDARD`, which writes `data` in the standard
/// alphabet, padded, as RFC 4648 lays down. It panics where the text's
/// length does not fit a `usize`.
#[verifier::external_body]
fn encode_base64(data: &[u8]) -> (text: String)
    requires
        base64_length(data@.len()) <= usize::MAX,
    ensures
        text@ == base64_text(data@),
{
    base64::Engine::encode(&base64::engine::general_purpose::STANDARD, data)
}

/// The `data:` URI of a resource of media type `mime`, given the Base64
/// text of its bytes.
pub open spec fn data_uri_of(mime: Seq<char>, payload: Seq<char>) -> Seq<char> {
    "data:"@ + mime + ";base64,"@ + payload
}

/// Writes the `data:` URI of a resource of media type `mime` whose bytes
/// `payload` holds as Base64 text.
pub fn data_uri(mime: &str, payload: &str) -> (uri: String)
    ensures
        uri@ == data_uri_of(mime@, payload@),
{
    let mut uri = "data:".to_owned();
    uri.append(mime);
    uri.append(";base64,");
    uri.append(payload);
    uri
}

/// The `data:` URI of a cover image, from its bytes and its media type.
pub fn cover_data_uri(data: &[u8], mime: &str) -> (uri: String)
    requires
        base64_length(data@.len()) <= usize::MAX,
    ensures
        uri@ == data_uri_of(mime@, base64_text(data@)),
{
    let payload = encode_base64(data);
    data_uri(mime, payload.as_str())
}

/// The optional text's view.
pub open spec fn text_view(text: Option<String>) -> Option<Seq<char>> {
    match text {
        Some(text) => Some(text@),
        None => None,
    }
}

/// A book's metadata.
pub struct Metadata {
    pub title: Option<Seq<char>>,
    pub creator: Option<Seq<char>>,
    pub cover_base64: Option<Seq<char>>,
}

/// A book's metadata.
#[derive(Clone, Debug, PartialEq, Eq)]
pub struct EpubMetadata {
    /// The book's title.
    pub title: Option<String>,
    /// The book's creator.
    pub creator: Option<String>,
    /// The cover image as a `data:` URI.
    pub cover_base64: Option<String>,
}

impl View for EpubMetadata {
    type V = Metadata;

    open spec fn view(&self) -> Metadata {
        Metadata {
            title: text_view(self.title),
            creator: text_view(self.creator),
            cover_base64: text_view(self.cover_base64),
        }
    }
}

/// The `data:` URI of the cover, where there is one.
pub open spec fn cover_uri_of(cover: Option<(Vec<u8>, String)>) -> Option<Seq<char>> {
    match cover {
        Some((data, mime)) => Some(data_uri_of(mime@, base64_text(data@))),
        None => None,
    }
}

impl EpubMetadata {
    /// The metadata made of what a book declares: title and creator as they
    /// are, the cover's bytes and media type as a `data:` URI.
    pub fn from_parts(
        title: Option<String>,
        creator: Option<String>,
        cover: Option<(Vec<u8>, String)>,
    ) -> (metadata: EpubMetadata)
        requires
            cover matches Some((data, _)) ==> base64_length(data@.len()) <= usize::MAX,
        ensures
            metadata@ == (Metadata {
                title: text_view(title),
                creator: text_view(creator),
                cover_base64: cover_uri_of(cover),
            }),
    {
        let cover_base64 = match cover {
            Some((data, mime)) => Some(cover_data_uri(data.as_slice(), mime.as_str())),
            None => None,
        };
        EpubMetadata { title, creator, cover_base64 }
    }
}

} // verus!
