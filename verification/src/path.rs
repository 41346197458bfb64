//! The path resolver: from a virtual request path to the archive file and
//! the entry inside it.
//!
//! A request path has the shape `<archive>.epub[/[_unpacked/]<entry>]`. The
//! rightmost `.epub` ends the archive's path; what follows it, without one
//! leading `/`, the token `_unpacked` and one more `/`, names the entry.

use vstd::prelude::*;
use crate::text::{
    chars_of, is_last_occurrence, last_index_of, last_occurrence, lemma_last_index_is,
    lemma_occurs_has_last, matches_at, occurs, occurs_at, without_prefix,
};

verus! {

/// The extension that ends an archive's path inside a request path.
pub open spec fn archive_marker() -> Seq<char> {
    ".epub"@
}

/// The token that clients put in front of the entry's path.
pub open spec fn unpacked_token() -> Seq<char> {
    "_unpacked"@
}

/// The path separator.
pub open spec fn separator() -> Seq<char> {
    "/"@
}

/// The three patterns, character by character.
pub proof fn lemma_patterns()
    ensures
        archive_marker() == seq!['.', 'e', 'p', 'u', 'b'],
        unpacked_token() == seq!['_', 'u', 'n', 'p', 'a', 'c', 'k', 'e', 'd'],
        separator() == seq!['/'],
{
    reveal_strlit(".epub");
    reveal_strlit("_unpacked");
    reveal_strlit("/");
    assert(archive_marker() =~= seq!['.', 'e', 'p', 'u', 'b']);
    assert(unpacked_token() =~= seq!['_', 'u', 'n', 'p', 'a', 'c', 'k', 'e', 'd']);
    assert(separator() =~= seq!['/']);
}

/// What a request path resolves to: the archive file's path and the name of
/// the entry inside the archive. An empty `entry` asks for the archive itself.
pub struct Location {
    pub archive: Seq<char>,
    pub entry: Seq<char>,
}

/// The entry that the text behind the archive's path names: that text
/// without one leading separator, then without the token, then without one
/// more leading separator.
pub open spec fn entry_of(remainder: Seq<char>) -> Seq<char> {
    without_prefix(
        without_prefix(without_prefix(remainder, separator()), unpacked_token()),
        separator(),
    )
}

/// The location that `path` names if its archive marker stands at `at`.
pub open spec fn split_at_marker(path: Seq<char>, at: int) -> Location {
    let cut = at + archive_marker().len();
    Location { archive: path.take(cut), entry: entry_of(path.skip(cut)) }
}

/// The location that a decoded request path names: it is split behind the
/// rightmost archive marker. A path without a marker names nothing.
pub open spec fn resolved(path: Seq<char>) -> Option<Location> {
    if occurs(path, archive_marker()) {
        Some(split_at_marker(path, last_index_of(path, archive_marker())))
    } else {
        None
    }
}

/// A path whose rightmost marker stands at `at` resolves to the split there.
pub proof fn lemma_resolved_at(path: Seq<char>, at: int)
    requires
        is_last_occurrence(path, archive_marker(), at),
    ensures
        resolved(path) == Some(split_at_marker(path, at)),
{
    lemma_last_index_is(path, archive_marker(), at);
}

/// The archive path of every resolved location ends with the marker.
pub proof fn lemma_resolved_archive_ends_with_marker(path: Seq<char>)
    ensures
        resolved(path) matches Some(location) ==> archive_marker().is_suffix_of(
            location.archive,
        ),
{
    if occurs(path, archive_marker()) {
        lemma_occurs_has_last(path, archive_marker());
        let at = last_index_of(path, archive_marker());
        let cut = at + archive_marker().len();
        assert(path.take(cut).subrange(at, cut) =~= path.subrange(at, cut));
    }
}

/// A rightmost occurrence in `tail` is the rightmost one in `head + tail` too.
proof fn lemma_last_occurrence_in_tail(
    head: Seq<char>,
    tail: Seq<char>,
    pattern: Seq<char>,
    at: int,
)
    requires
        is_last_occurrence(tail, pattern, at),
    ensures
        is_last_occurrence(head + tail, pattern, head.len() + at),
        (head + tail).skip(head.len() + at + pattern.len()) == tail.skip(at + pattern.len()),
{
    let whole = head + tail;
    let shift = head.len() as int;
    assert(whole.subrange(shift + at, shift + at + pattern.len()) =~= tail.subrange(
        at,
        at + pattern.len(),
    ));
    assert forall|later: int| shift + at < later implies !occurs_at(whole, pattern, later) by {
        if occurs_at(whole, pattern, later) {
            assert(tail.subrange(later - shift, later - shift + pattern.len()) =~= whole.subrange(
                later,
                later + pattern.len(),
            ));
            assert(occurs_at(tail, pattern, later - shift));
        }
    }
    assert(whole.skip(shift + at + pattern.len()) =~= tail.skip(at + pattern.len()));
}

/// In `stem + marker + middle + tail`, where neither `middle` holds a `.` nor
/// `tail` a marker, the marker behind `stem` is the rightmost one.
proof fn lemma_marker_behind_stem_is_last(stem: Seq<char>, middle: Seq<char>, tail: Seq<char>)
    requires
        !middle.contains('.'),
        !occurs(tail, archive_marker()),
    ensures
        ({
            let whole = stem + archive_marker() + middle + tail;
            let cut = (stem.len() + archive_marker().len()) as int;
            &&& is_last_occurrence(whole, archive_marker(), stem.len() as int)
            &&& whole.take(cut) == stem + archive_marker()
            &&& whole.skip(cut) == middle + tail
        }),
{
    lemma_patterns();
    let marker = archive_marker();
    let whole = stem + marker + middle + tail;
    let at = stem.len() as int;
    let inner = at + marker.len() + middle.len();
    assert(whole.subrange(at, at + marker.len()) =~= marker);
    assert forall|later: int| at < later implies !occurs_at(whole, marker, later) by {
        if occurs_at(whole, marker, later) {
            assert(whole.subrange(later, later + marker.len())[0] == '.');
            assert(whole[later] == '.');
            if later < at + marker.len() {
                assert(whole[later] == marker[later - at]);
            } else if later < inner {
                assert(whole[later] == middle[later - at - marker.len()]);
                assert(middle.contains('.'));
            } else {
                assert(tail.subrange(later - inner, later - inner + marker.len())
                    =~= whole.subrange(later, later + marker.len()));
                assert(occurs_at(tail, marker, later - inner));
            }
        }
    }
    assert(whole.take(at + marker.len()) =~= stem + marker);
    assert(whole.skip(at + marker.len()) =~= middle + tail);
}

/// Behind `/_unpacked/`, every text is the entry that is named.
proof fn lemma_entry_behind_token(entry: Seq<char>)
    ensures
        entry_of(separator() + unpacked_token() + separator() + entry) == entry,
{
    lemma_patterns();
    let remainder = separator() + unpacked_token() + separator() + entry;
    let first = without_prefix(remainder, separator());
    assert(remainder.subrange(0, 1) =~= separator());
    assert(first =~= unpacked_token() + separator() + entry);
    let second = without_prefix(first, unpacked_token());
    assert(first.subrange(0, 9) =~= unpacked_token());
    assert(second =~= separator() + entry);
    assert(second.subrange(0, 1) =~= separator());
    assert(without_prefix(second, separator()) =~= entry);
}

/// Behind `/`, a text that begins neither with a separator nor with the
/// token is the entry that is named.
proof fn lemma_entry_behind_separator(entry: Seq<char>)
    requires
        !separator().is_prefix_of(entry),
        !unpacked_token().is_prefix_of(entry),
    ensures
        entry_of(separator() + entry) == entry,
{
    lemma_patterns();
    let remainder = separator() + entry;
    assert(remainder.subrange(0, 1) =~= separator());
    assert(without_prefix(remainder, separator()) =~= entry);
}

/// Neither `/` nor `/_unpacked/` holds a `.`.
proof fn lemma_separators_hold_no_dot()
    ensures
        !separator().contains('.'),
        !(separator() + unpacked_token() + separator()).contains('.'),
{
    lemma_patterns();
    assert(separator() + unpacked_token() + separator() =~= seq![
        '/',
        '_',
        'u',
        'n',
        'p',
        'a',
        'c',
        'k',
        'e',
        'd',
        '/',
    ]);
}

/// The token `_unpacked` is decorative: a request path with `/_unpacked/`
/// between the archive and the entry, and the same path with `/` there,
/// resolve to the same entry. Where the entry's own name holds no archive
/// marker, both resolve to the archive `stem + ".epub"` and to `entry` itself.
///
/// `entry` is a relative path, one that begins neither with a separator nor
/// with the token; or it holds a marker of its own, behind which both paths
/// are the same.
pub proof fn lemma_unpacked_token_is_decorative(stem: Seq<char>, entry: Seq<char>)
    requires
        occurs(entry, archive_marker()) || (!separator().is_prefix_of(entry)
            && !unpacked_token().is_prefix_of(entry)),
    ensures
        ({
            let decorated = resolved(
                stem + archive_marker() + (separator() + unpacked_token() + separator()) + entry,
            );
            let plain = resolved(stem + archive_marker() + separator() + entry);
            &&& decorated is Some
            &&& plain is Some
            &&& decorated->0.entry == plain->0.entry
            &&& !occurs(entry, archive_marker()) ==> decorated == plain && plain == Some(
                Location { archive: stem + archive_marker(), entry },
            )
        }),
{
    let marker = archive_marker();
    let long = separator() + unpacked_token() + separator();
    let short = separator();
    let decorated = stem + marker + long + entry;
    let plain = stem + marker + short + entry;
    if occurs(entry, marker) {
        lemma_occurs_has_last(entry, marker);
        let at = last_index_of(entry, marker);
        lemma_last_occurrence_in_tail(stem + marker + long, entry, marker, at);
        lemma_last_occurrence_in_tail(stem + marker + short, entry, marker, at);
        lemma_resolved_at(decorated, (stem + marker + long).len() + at);
        lemma_resolved_at(plain, (stem + marker + short).len() + at);
    } else {
        lemma_separators_hold_no_dot();
        lemma_marker_behind_stem_is_last(stem, long, entry);
        lemma_marker_behind_stem_is_last(stem, short, entry);
        lemma_resolved_at(decorated, stem.len() as int);
        lemma_resolved_at(plain, stem.len() as int);
        lemma_entry_behind_token(entry);
        lemma_entry_behind_separator(entry);
    }
}

/// The request path has no archive marker, so it names no archive.
#[derive(Clone, Copy, Debug, PartialEq, Eq)]
pub struct MalformedRequest;

/// A resolved request: the archive file's path, which ends with `.epub`, and
/// the entry's name inside the archive, empty for a probe of the archive itself.
#[derive(Debug, PartialEq, Eq)]
pub struct ResolvedLocation {
    archive_path: String,
    entry_path: String,
}

impl View for ResolvedLocation {
    type V = Location;

    closed spec fn view(&self) -> Location {
        Location { archive: self.archive_path@, entry: self.entry_path@ }
    }
}

impl Clone for ResolvedLocation {
    fn clone(&self) -> (copy: Self)
        ensures
            copy@ == self@,
    {
        proof {
            use_type_invariant(self);
        }
        ResolvedLocation {
            archive_path: self.archive_path.clone(),
            entry_path: self.entry_path.clone(),
        }
    }
}

impl ResolvedLocation {
    #[verifier::type_invariant]
    spec fn archive_ends_with_marker(&self) -> bool {
        archive_marker().is_suffix_of(self.archive_path@)
    }

    /// The location made of the two paths, if `archive_path` ends with `.epub`.
    pub fn new(archive_path: String, entry_path: String) -> (made: Option<ResolvedLocation>)
        ensures
            made is Some <==> archive_marker().is_suffix_of(archive_path@),
            made matches Some(location) ==> location@ == (Location {
                archive: archive_path@,
                entry: entry_path@,
            }),
    {
        let chars = chars_of(archive_path.as_str());
        let marker = chars_of(".epub");
        if chars.len() >= marker.len() && matches_at(
            chars.as_slice(),
            marker.as_slice(),
            chars.len() - marker.len(),
        ) {
            Some(ResolvedLocation { archive_path, entry_path })
        } else {
            None
        }
    }

    /// The path of the archive file. It ends with `.epub`.
    pub fn archive_path(&self) -> (path: &str)
        ensures
            path@ == self@.archive,
            archive_marker().is_suffix_of(path@),
    {
        proof {
            use_type_invariant(self);
        }
        self.archive_path.as_str()
    }

    /// The name of the entry inside the archive.
    pub fn entry_path(&self) -> (path: &str)
        ensures
            path@ == self@.entry,
    {
        self.entry_path.as_str()
    }

    /// Whether the request asks for the archive itself and for no entry.
    pub fn is_root_probe(&self) -> (probe: bool)
        ensures
            probe == (self@.entry.len() == 0),
    {
        self.entry_path.as_str().is_empty()
    }
}

/// The index behind `prefix` where it stands in `text` at `at`, else `at`.
fn skip_prefix(text: &[char], prefix: &[char], at: usize) -> (next: usize)
    requires
        at <= text.len(),
    ensures
        at <= next <= text.len(),
        text@.skip(next as int) == without_prefix(text@.skip(at as int), prefix@),
{
    proof {
        if at + prefix@.len() <= text@.len() {
            assert(text@.skip(at as int).subrange(0, prefix@.len() as int) =~= text@.subrange(
                at as int,
                at + prefix@.len(),
            ));
            assert(text@.skip(at as int).skip(prefix@.len() as int) =~= text@.skip(
                at + prefix@.len(),
            ));
        }
    }
    if matches_at(text, prefix, at) {
        at + prefix.len()
    } else {
        at
    }
}

/// Resolves a request path that is already decoded.
///
/// The path is split behind its rightmost `.epub`. Without one, the request
/// is malformed.
pub fn resolve_decoded(path: &str) -> (resolution: Result<ResolvedLocation, MalformedRequest>)
    ensures
        match resolution {
            Ok(location) => resolved(path@) == Some(location@),
            Err(_) => resolved(path@) is None,
        },
{
    let chars = chars_of(path);
    let marker = chars_of(".epub");
    let token = chars_of("_unpacked");
    let slash = chars_of("/");
    let end = chars.len();
    match last_occurrence(chars.as_slice(), marker.as_slice()) {
        None => Err(MalformedRequest),
        Some(at) => {
            let cut = at + marker.len();
            let after_slash = skip_prefix(chars.as_slice(), slash.as_slice(), cut);
            let after_token = skip_prefix(chars.as_slice(), token.as_slice(), after_slash);
            let start = skip_prefix(chars.as_slice(), slash.as_slice(), after_token);
            let archive_path = path.substring_char(0, cut).to_owned();
            let entry_path = path.substring_char(start, end).to_owned();
            proof {
                lemma_resolved_at(path@, at as int);
                assert(path@.subrange(0, cut as int) =~= path@.take(cut as int));
                assert(path@.subrange(start as int, end as int) =~= path@.skip(start as int));
                assert(archive_path@.subrange(at as int, cut as int) =~= path@.subrange(
                    at as int,
                    cut as int,
                ));
            }
            Ok(ResolvedLocation { archive_path, entry_path })
        },
    }
}

/// What percent-decoding makes of a request path: the decoded text, or
/// nothing where the decoded bytes are no UTF-8 text.
pub uninterp spec fn percent_decoded(raw: Seq<char>) -> Option<Seq<char>>;

/// The path that is resolved for a raw request path: its percent-decoded
/// form, or the raw path itself where that cannot be had.
pub open spec fn decoded_path(raw: Seq<char>) -> Seq<char> {
    match percent_decoded(raw) {
        Some(decoded) => decoded,
        None => raw,
    }
}

/// Calls `urlencoding::decode`, which replaces each `%` and the two
/// hexadecimal digits behind it by the byte they write, and fails where the
/// bytes that come of it are no UTF-8 text. The result is taken as a function
/// of the text alone; of a text without `%` it is that text, unchanged.
#[verifier::external_body]
fn percent_decode(raw: &str) -> (decoded: Option<String>)
    ensures
        match decoded {
            Some(text) => percent_decoded(raw@) == Some(text@) && (raw@.contains('%')
                || text@ == raw@),
            None => percent_decoded(raw@) is None && raw@.contains('%'),
        },
{
    match urlencoding::decode(raw) {
        Ok(text) => Some(text.into_owned()),
        Err(_) => None,
    }
}

/// Resolves a raw request path.
///
/// The path is percent-decoded first; where that fails the raw path is
/// resolved as it stands.
pub fn resolve(raw_path: &str) -> (resolution: Result<ResolvedLocation, MalformedRequest>)
    ensures
        match resolution {
            Ok(location) => resolved(decoded_path(raw_path@)) == Some(location@),
            Err(_) => resolved(decoded_path(raw_path@)) is None,
        },
        !raw_path@.contains('%') ==> decoded_path(raw_path@) == raw_path@,
{
    match percent_decode(raw_path) {
        Some(decoded) => resolve_decoded(decoded.as_str()),
        None => resolve_decoded(raw_path),
    }
}

} // verus!
