//! Filename resolution for a transfer: the last URL path segment with its
//! query stripped when it already carries an extension, else that segment
//! with an extension derived from the response content type.

use vstd::prelude::*;

use crate::strutil::{
    after_last, after_last_char, before_first, before_first_char, seq_contains_sub,
    str_contains_sub, trim_trailing, trim_trailing_char, spec_u64_dec, u64_to_string,
    spec_replaced, replace_all,
};

verus! {

/// The last path segment of a URL, with any query string stripped.
pub open spec fn url_segment(url: Seq<char>) -> Seq<char> {
    before_first(after_last(url, '/'), '?')
}

/// The extension chosen for a content type: the first of the known media
/// words it mentions, `txt` for any textual type, else the generic `bin`.
pub open spec fn ext_for_content_type(ct: Seq<char>) -> Seq<char> {
    if seq_contains_sub(ct, "jpeg"@) || seq_contains_sub(ct, "jpg"@) {
        "jpg"@
    } else if seq_contains_sub(ct, "png"@) {
        "png"@
    } else if seq_contains_sub(ct, "gif"@) {
        "gif"@
    } else if seq_contains_sub(ct, "webp"@) {
        "webp"@
    } else if seq_contains_sub(ct, "mp4"@) {
        "mp4"@
    } else if seq_contains_sub(ct, "webm"@) {
        "webm"@
    } else if seq_contains_sub(ct, "pdf"@) {
        "pdf"@
    } else if seq_contains_sub(ct, "zip"@) {
        "zip"@
    } else if seq_contains_sub(ct, "json"@) {
        "json"@
    } else if seq_contains_sub(ct, "text"@) {
        "txt"@
    } else {
        "bin"@
    }
}

/// Whether a URL segment can serve as a filename on its own: more than one
/// character, a dot somewhere, and not ending in a dot.
pub open spec fn segment_is_usable(seg: Seq<char>) -> bool {
    seg.len() > 1 && seg.contains('.') && seg.last() != '.'
}

/// The resolved filename for a URL and a response content type.
pub open spec fn spec_determine_filename(url: Seq<char>, ct: Seq<char>) -> Seq<char> {
    let seg = url_segment(url);
    if segment_is_usable(seg) {
        seg
    } else {
        trim_trailing(seg, '.') + seq!['.'] + ext_for_content_type(ct)
    }
}

/// Whether the string holds the character anywhere.
pub fn str_contains_char(s: &str, c: char) -> (r: bool)
    ensures
        r == s@.contains(c),
{
    let n = s.unicode_len();
    let mut i: usize = 0;
    while i < n
        invariant
            i <= n,
            n == s@.len(),
            forall|k: int| 0 <= k < i ==> s@[k] != c,
        decreases n - i,
    {
        if s.get_char(i) == c {
            assert(s@.contains(c)) by {
                assert(s@[i as int] == c);
            }
            return true;
        }
        i += 1;
    }
    assert(!s@.contains(c));
    false
}

/// The extension for a content type, per the media-word mapping.
pub fn ext_from_content_type(ct: &str) -> (r: String)
    ensures
        r@ == ext_for_content_type(ct@),
{
    if str_contains_sub(ct, "jpeg") || str_contains_sub(ct, "jpg") {
        "jpg".to_owned()
    } else if str_contains_sub(ct, "png") {
        "png".to_owned()
    } else if str_contains_sub(ct, "gif") {
        "gif".to_owned()
    } else if str_contains_sub(ct, "webp") {
        "webp".to_owned()
    } else if str_contains_sub(ct, "mp4") {
        "mp4".to_owned()
    } else if str_contains_sub(ct, "webm") {
        "webm".to_owned()
    } else if str_contains_sub(ct, "pdf") {
        "pdf".to_owned()
    } else if str_contains_sub(ct, "zip") {
        "zip".to_owned()
    } else if str_contains_sub(ct, "json") {
        "json".to_owned()
    } else if str_contains_sub(ct, "text") {
        "txt".to_owned()
    } else {
        "bin".to_owned()
    }
}

/// Resolves a filename from the URL and the response content type.
pub fn determine_filename(url: &str, content_type: &str) -> (r: String)
    ensures
        r@ == spec_determine_filename(url@, content_type@),
{
    let seg_full = after_last_char(url, '/');
    let seg = before_first_char(seg_full.as_str(), '?');
    let n = seg.as_str().unicode_len();
    if n > 1 && str_contains_char(seg.as_str(), '.') && seg.as_str().get_char(n - 1) != '.' {
        seg
    } else {
        let mut r = trim_trailing_char(seg.as_str(), '.');
        r.push('.');
        let ext = ext_from_content_type(content_type);
        r.append(ext.as_str());
        r
    }
}

/// The stem of a name split at its last dot; the whole name when there is no
/// dot or nothing follows the last dot.
pub open spec fn spec_split_stem(name: Seq<char>) -> Seq<char> {
    if name.contains('.') && after_last(name, '.').len() >= 1 {
        before_last(name, '.')
    } else {
        name
    }
}

/// The extension of a name after its last dot, when one follows it.
pub open spec fn spec_split_ext(name: Seq<char>) -> Option<Seq<char>> {
    if name.contains('.') && after_last(name, '.').len() >= 1 {
        Some(after_last(name, '.'))
    } else {
        None
    }
}

/// The characters before the last occurrence of `c`; empty when `c` does not
/// occur.
pub open spec fn before_last(s: Seq<char>, c: char) -> Seq<char>
    decreases s.len(),
{
    if s.len() == 0 {
        s
    } else if s.last() == c {
        s.drop_last()
    } else {
        before_last(s.drop_last(), c)
    }
}

/// The prefix of the string before its last occurrence of `c`.
pub fn before_last_char(s: &str, c: char) -> (r: String)
    ensures
        r@ == before_last(s@, c),
    decreases s@.len(),
{
    let n = s.unicode_len();
    if n == 0 {
        String::new()
    } else {
        let head = s.substring_char(0, n - 1);
        assert(head@ =~= s@.drop_last());
        if s.get_char(n - 1) == c {
            head.to_owned()
        } else {
            before_last_char(head, c)
        }
    }
}

/// Splits a name at its last dot into stem and extension; the extension is
/// absent when no dot occurs or the name ends in its only dot.
pub fn split_name_ext(name: &str) -> (r: (String, Option<String>))
    ensures
        r.0@ == spec_split_stem(name@),
        r.1 is Some <==> spec_split_ext(name@) is Some,
        r.1 matches Some(e) ==> spec_split_ext(name@) matches Some(se) && e@ == se,
{
    let tail = after_last_char(name, '.');
    if str_contains_char(name, '.') && tail.as_str().unicode_len() >= 1 {
        let stem = before_last_char(name, '.');
        (stem, Some(tail))
    } else {
        (name.to_owned(), None)
    }
}

/// The candidate name tried when a file of the base name already exists:
/// the stem with a numbered suffix, keeping the extension when there is one.
pub open spec fn spec_unique_candidate(
    stem: Seq<char>,
    ext: Option<Seq<char>>,
    idx: nat,
) -> Seq<char> {
    match ext {
        Some(e) => spec_replaced(
            stem + " ("@ + spec_u64_dec(idx) + ") ."@ + e,
            "  ."@,
            "."@,
        ),
        None => stem + " ("@ + spec_u64_dec(idx) + ")"@,
    }
}

/// Builds the numbered candidate name for an index.
pub fn unique_name_candidate(stem: &str, ext: Option<&String>, idx: u64) -> (r: String)
    ensures
        match ext {
            Some(e) => r@ == spec_unique_candidate(stem@, Some(e@), idx as nat),
            None => r@ == spec_unique_candidate(stem@, None, idx as nat),
        },
{
    let mut base = stem.to_owned();
    base.append(" (");
    let num = u64_to_string(idx);
    base.append(num.as_str());
    match ext {
        Some(e) => {
            base.append(") .");
            base.append(e.as_str());
            replace_all(base.as_str(), "  .", ".")
        },
        None => {
            base.append(")");
            base
        },
    }
}

} // verus!
