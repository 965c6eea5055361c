//! The template parser: a format string such as `%artist% - %title%` is a
//! sequence of literal characters interleaved with placeholders of the form
//! `%name%`, where `name` is one or more ASCII alphabetic characters. The
//! scan is leftmost and non-overlapping: at each position, a placeholder
//! starts iff a `%` is followed by a maximal non-empty alphabetic run that
//! is itself terminated by a `%`; the scan then resumes after the closing
//! `%`. All other modules (sanitizer, renderer, pattern builder, matcher)
//! are driven by this one scan, so the forward and inverse directions can
//! never disagree about where the placeholders are.

use vstd::prelude::*;
use crate::chars::{is_alpha, alpha_char, sub_string};

verus! {

/// The first index at or after `i` whose character is not ASCII alphabetic
/// (or the length of the sequence if the alphabetic run reaches the end).
pub open spec fn alpha_run_end(s: Seq<char>, i: int) -> int
    decreases s.len() - i,
{
    if i < 0 || i >= s.len() {
        s.len() as int
    } else if is_alpha(s[i]) {
        alpha_run_end(s, i + 1)
    } else {
        i
    }
}

/// A placeholder `%name%` starts at position `i`: a `%`, then a maximal
/// non-empty alphabetic run, then a `%`. The name is `s[i+1 .. alpha_run_end(s, i+1)]`.
pub open spec fn placeholder_at(s: Seq<char>, i: int) -> bool {
    &&& 0 <= i < s.len()
    &&& s[i] == '%'
    &&& i + 1 < alpha_run_end(s, i + 1)
    &&& alpha_run_end(s, i + 1) < s.len()
    &&& s[alpha_run_end(s, i + 1)] == '%'
}

/// The placeholder names found by scanning `s` from position `i`, in order
/// of appearance, duplicates included.
pub open spec fn tags_from(s: Seq<char>, i: int) -> Seq<Seq<char>>
    decreases s.len() - i,
{
    if i < 0 || i >= s.len() {
        Seq::empty()
    } else if placeholder_at(s, i) {
        let e = alpha_run_end(s, i + 1);
        seq![s.subrange(i + 1, e)] + tags_from(s, e + 1)
    } else {
        tags_from(s, i + 1)
    }
}

/// The ordered placeholder names of a whole format string.
pub open spec fn format_tags(s: Seq<char>) -> Seq<Seq<char>> {
    tags_from(s, 0)
}

/// The fixed vocabulary of recognized placeholder names.
pub open spec fn in_vocab(name: Seq<char>) -> bool {
    ||| name == "artist"@
    ||| name == "title"@
    ||| name == "album"@
    ||| name == "albumartist"@
    ||| name == "tracknumber"@
    ||| name == "discnumber"@
    ||| name == "genre"@
    ||| name == "date"@
    ||| name == "comment"@
}

/// Every placeholder of the format string is in the vocabulary.
pub open spec fn all_supported(s: Seq<char>) -> bool {
    forall|k: int| 0 <= k < format_tags(s).len() ==> in_vocab(#[trigger] format_tags(s)[k])
}

/// Executable computation of [`alpha_run_end`].
pub fn alpha_run_end_exec(v: &Vec<char>, i: usize) -> (e: usize)
    requires
        i <= v@.len(),
    ensures
        e == alpha_run_end(v@, i as int),
        i <= e <= v@.len(),
{
    let mut e = i;
    while e < v.len() && alpha_char(v[e])
        invariant
            i <= e <= v@.len(),
            alpha_run_end(v@, i as int) == alpha_run_end(v@, e as int),
        decreases v@.len() - e,
    {
        e = e + 1;
    }
    e
}

/// If a placeholder starts at `i`, returns the index of its closing `%`.
pub fn check_placeholder(v: &Vec<char>, i: usize) -> (r: Option<usize>)
    requires
        i < v@.len(),
    ensures
        match r {
            Some(e) => placeholder_at(v@, i as int) && e == alpha_run_end(v@, i as int + 1),
            None => !placeholder_at(v@, i as int),
        },
{
    let n = v.len();
    if v[i] != '%' {
        return None;
    }
    let e = alpha_run_end_exec(v, i + 1);
    if i + 1 < e && e < v.len() && v[e] == '%' {
        Some(e)
    } else {
        None
    }
}

/// Pulls the placeholder names out of a format string, in order of first
/// appearance, duplicates included.
pub fn get_format_tags(format: &str) -> (r: Vec<String>)
    ensures
        r.deep_view() == format_tags(format@),
{
    let v = crate::chars::str_to_chars(format);
    let mut out: Vec<String> = Vec::new();
    let mut i: usize = 0;
    while i < v.len()
        invariant
            v@ == format@,
            i <= v@.len(),
            out.deep_view() + tags_from(v@, i as int) =~~= format_tags(v@),
        decreases v@.len() - i,
    {
        match check_placeholder(&v, i) {
            Some(e) => {
                let name = sub_string(&v, i + 1, e);
                let ghost old_out = out.deep_view();
                out.push(name);
                proof {
                    assert(out.deep_view() =~~= old_out.push(name@));
                }
                i = e + 1;
            },
            None => {
                i = i + 1;
            },
        }
    }
    proof {
        assert(out.deep_view() =~~= format_tags(v@));
    }
    out
}

/// Whether a single name is in the vocabulary.
pub fn in_vocab_exec(name: &String) -> (r: bool)
    ensures
        r == in_vocab(name@),
{
    *name == String::from_str("artist") || *name == String::from_str("title")
        || *name == String::from_str("album") || *name == String::from_str("albumartist")
        || *name == String::from_str("tracknumber") || *name == String::from_str("discnumber")
        || *name == String::from_str("genre") || *name == String::from_str("date")
        || *name == String::from_str("comment")
}

/// Checks that every placeholder of the format string is in the supported
/// vocabulary; returns false iff at least one placeholder is outside it.
pub fn is_supported_tags(format: &str) -> (r: bool)
    ensures
        r == all_supported(format@),
{
    let tags = get_format_tags(format);
    let mut k: usize = 0;
    while k < tags.len()
        invariant
            tags.deep_view() == format_tags(format@),
            k <= tags@.len(),
            forall|q: int| 0 <= q < k ==> in_vocab(#[trigger] format_tags(format@)[q]),
        decreases tags@.len() - k,
    {
        if !in_vocab_exec(&tags[k]) {
            proof {
                assert(format_tags(format@)[k as int] == tags.deep_view()[k as int]);
            }
            return false;
        }
        k = k + 1;
    }
    true
}

} // verus!
