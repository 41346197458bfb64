//! The media type of an archive entry, inferred from the extension of its name.

use vstd::prelude::*;

verus! {

/// The media type that the extension of `path` is known by, if it is known
/// by one.
pub uninterp spec fn guessed_media_type(path: Seq<char>) -> Option<Seq<char>>;

/// The media type of content about which nothing is known.
pub open spec fn octet_stream() -> Seq<char> {
    "application/octet-stream"@
}

/// The media type under which the entry named `path` is served: the one its
/// extension is known by, else `application/octet-stream`.
pub open spec fn media_type_of(path: Seq<char>) -> Seq<char> {
    match guessed_media_type(path) {
        Some(media_type) => media_type,
        None => octet_stream(),
    }
}

/// Calls `mime_guess::from_path` and, on its guess, `first_or_octet_stream`.
/// The guess goes by the extension of `path` alone, without access to any
/// file, and holds the media types that the extension is known by; the second
/// call hands out the first of them, or `application/octet-stream` where
/// there is none.
#[verifier::external_body]
pub(crate) fn infer_media_type(path: &str) -> (media_type: String)
    ensures
        match guessed_media_type(path@) {
            Some(guessed) => media_type@ == guessed,
            None => media_type@ == octet_stream(),
        },
{
    let guessed = mime_guess::from_path(path).first_or_octet_stream();
    AsRef::<str>::as_ref(&guessed).to_owned()
}

} // verus!
