//! The inverse direction: a format string, read as a pattern, can capture
//! field values back out of a line of text shaped like its rendered
//! output.
//!
//! [`build_input_specifier`] renders the format string into the textual
//! pattern language (literal characters sanitized, each placeholder turned
//! into a named capturing group matching one-or-more characters), for use
//! by external pattern engines.
//!
//! [`match_line`] is the library's own matcher for exactly that pattern
//! shape: a line matches when it can be split into the format's literal
//! text with one non-empty captured value per placeholder ([`valid_split`]).
//! When two placeholders are adjacent with no literal separator, the split
//! point is ambiguous; like a backtracking engine with greedy groups, the
//! matcher prefers the longest capture for the earliest placeholder.

use vstd::prelude::*;
use crate::chars::{sub_vec, chars_to_string};
use crate::sanitize::{esc_char, meta_char};
use crate::template::{alpha_run_end, placeholder_at, tags_from, check_placeholder};

verus! {

/// The inverse pattern for the suffix of format string `f` starting at
/// `i`: literal characters escaped, each placeholder `%name%` replaced by
/// the capturing group `(?P<name>.+)`.
pub open spec fn pattern_from(f: Seq<char>, i: int) -> Seq<char>
    decreases f.len() - i,
{
    if i < 0 || i >= f.len() {
        Seq::empty()
    } else if placeholder_at(f, i) {
        let e = alpha_run_end(f, i + 1);
        "(?P<"@ + f.subrange(i + 1, e) + ">.+)"@ + pattern_from(f, e + 1)
    } else {
        esc_char(f[i]) + pattern_from(f, i + 1)
    }
}

/// The inverse pattern of a whole format string.
pub open spec fn pattern_spec(f: Seq<char>) -> Seq<char> {
    pattern_from(f, 0)
}

/// Builds the textual capturing pattern for a format string: literal text
/// sanitized, each placeholder replaced by a named group that greedily
/// matches one-or-more characters. The caller passes the placeholder list
/// extracted from the same format string, so that the forward renderer and
/// the inverse pattern stay derived from one shared extraction.
pub fn build_input_specifier(format: &str, captured_tags: &Vec<String>) -> (r: String)
    requires
        captured_tags.deep_view() == crate::template::format_tags(format@),
    ensures
        r@ == pattern_spec(format@),
{
    let v = crate::chars::str_to_chars(format);
    let mut out = String::new();
    let mut i: usize = 0;
    while i < v.len()
        invariant
            v@ == format@,
            i <= v@.len(),
            out@ + pattern_from(v@, i as int) =~= pattern_spec(v@),
        decreases v@.len() - i,
    {
        match check_placeholder(&v, i) {
            Some(e) => {
                let name = crate::chars::sub_string(&v, i + 1, e);
                out.append("(?P<");
                out.append(name.as_str());
                out.append(">.+)");
                i = e + 1;
            },
            None => {
                if meta_char(v[i]) {
                    crate::chars::push_char(&mut out, '\\');
                }
                crate::chars::push_char(&mut out, v[i]);
                i = i + 1;
            },
        }
    }
    out
}

/// The captured values `vals` split line `line` (from position `j`)
/// according to the suffix of format string `f` starting at `i`: literal
/// characters of the format appear verbatim, and each placeholder consumes
/// one non-empty captured value, with nothing left over.
pub open spec fn valid_split(
    f: Seq<char>,
    i: int,
    line: Seq<char>,
    j: int,
    vals: Seq<Seq<char>>,
) -> bool
    decreases f.len() - i,
{
    if i < 0 || i >= f.len() {
        j == line.len() && vals.len() == 0
    } else if placeholder_at(f, i) {
        let e = alpha_run_end(f, i + 1);
        &&& vals.len() > 0
        &&& vals[0].len() > 0
        &&& 0 <= j
        &&& j + vals[0].len() <= line.len()
        &&& line.subrange(j, j + vals[0].len()) == vals[0]
        &&& valid_split(f, e + 1, line, j + vals[0].len(), vals.drop_first())
    } else {
        &&& 0 <= j < line.len()
        &&& line[j] == f[i]
        &&& valid_split(f, i + 1, line, j + 1, vals)
    }
}

/// Some sequence of captured values splits the line according to the
/// format suffix.
pub open spec fn splittable(f: Seq<char>, i: int, line: Seq<char>, j: int) -> bool {
    exists|vals: Seq<Seq<char>>| valid_split(f, i, line, j, vals)
}

/// A valid split has exactly one captured value per placeholder.
pub proof fn lemma_valid_split_len(f: Seq<char>, i: int, line: Seq<char>, j: int, vals: Seq<Seq<char>>)
    requires
        valid_split(f, i, line, j, vals),
    ensures
        vals.len() == tags_from(f, i).len(),
    decreases f.len() - i,
{
    if i < 0 || i >= f.len() {
    } else if placeholder_at(f, i) {
        let e = alpha_run_end(f, i + 1);
        lemma_valid_split_len(f, e + 1, line, j + vals[0].len(), vals.drop_first());
    } else {
        lemma_valid_split_len(f, i + 1, line, j + 1, vals);
    }
}

fn match_from(f: &Vec<char>, i: usize, line: &Vec<char>, j: usize) -> (r: Option<Vec<Vec<char>>>)
    requires
        i <= f@.len(),
        j <= line@.len(),
    ensures
        match r {
            Some(vals) => valid_split(f@, i as int, line@, j as int, vals.deep_view()),
            None => !splittable(f@, i as int, line@, j as int),
        },
    decreases f@.len() - i,
{
    let n = f.len();
    if i >= n {
        if j == line.len() {
            let out: Vec<Vec<char>> = Vec::new();
            proof {
                assert(out.deep_view() =~~= Seq::<Seq<char>>::empty());
            }
            Some(out)
        } else {
            proof {
                assert forall|vals: Seq<Seq<char>>|
                    !valid_split(f@, i as int, line@, j as int, vals) by {}
            }
            None
        }
    } else {
        match check_placeholder(f, i) {
            Some(e) => {
                let mut k = line.len();
                while k > j
                    invariant
                        n == f@.len(),
                        i < n,
                        placeholder_at(f@, i as int),
                        e == alpha_run_end(f@, i as int + 1),
                        i < e < n,
                        j <= k <= line@.len(),
                        forall|q: int|
                            k < q <= line@.len() ==> !#[trigger] splittable(f@, e as int + 1, line@, q),
                    decreases k,
                {
                    match match_from(f, e + 1, line, k) {
                        Some(rest) => {
                            let val = sub_vec(line, j, k);
                            let ghost val0 = val;
                            let ghost rest0 = rest@;
                            let ghost rest_dv = rest.deep_view();
                            let mut out: Vec<Vec<char>> = Vec::new();
                            out.push(val);
                            let mut rest = rest;
                            out.append(&mut rest);
                            proof {
                                assert(out@ == seq![val0] + rest0);
                                assert forall|t: int| 0 <= t < out@.len() implies out.deep_view()[t]
                                    == (seq![line@.subrange(j as int, k as int)] + rest_dv)[t] by {
                                    if t == 0 {
                                        assert(out@[0] == val0);
                                        assert(val0.deep_view() =~= val0@);
                                    } else {
                                        assert(out@[t] == rest0[t - 1]);
                                        assert(rest_dv[t - 1] == rest0[t - 1].deep_view());
                                    }
                                }
                                assert(out.deep_view() =~~= seq![
                                    line@.subrange(j as int, k as int),
                                ] + rest_dv);
                                assert(out.deep_view().drop_first() =~~= rest_dv);
                                assert(valid_split(f@, i as int, line@, j as int, out.deep_view()));
                            }
                            return Some(out);
                        },
                        None => {
                            k = k - 1;
                        },
                    }
                }
                proof {
                    assert forall|vals: Seq<Seq<char>>|
                        !valid_split(f@, i as int, line@, j as int, vals) by {
                        if valid_split(f@, i as int, line@, j as int, vals) {
                            let k0 = j + vals[0].len();
                            assert(valid_split(f@, e as int + 1, line@, k0 as int, vals.drop_first()));
                            assert(splittable(f@, e as int + 1, line@, k0 as int));
                        }
                    }
                }
                None
            },
            None => {
                if j < line.len() && line[j] == f[i] {
                    let r = match_from(f, i + 1, line, j + 1);
                    proof {
                        if r is None {
                            assert forall|vals: Seq<Seq<char>>|
                                !valid_split(f@, i as int, line@, j as int, vals) by {
                                if valid_split(f@, i as int, line@, j as int, vals) {
                                    assert(valid_split(f@, i as int + 1, line@, j as int + 1, vals));
                                    assert(splittable(f@, i as int + 1, line@, j as int + 1));
                                }
                            }
                        }
                    }
                    r
                } else {
                    proof {
                        assert forall|vals: Seq<Seq<char>>|
                            !valid_split(f@, i as int, line@, j as int, vals) by {}
                    }
                    None
                }
            },
        }
    }
}

/// Applies the format string as a pattern to one line: returns the
/// captured value of each placeholder, in placeholder order, or `None`
/// when the line does not have the shape the format string describes.
/// Ambiguous splits between adjacent placeholders are resolved greedily in
/// favour of the earliest placeholder.
pub fn match_line(format: &str, line: &str) -> (r: Option<Vec<String>>)
    ensures
        match r {
            Some(vals) => valid_split(format@, 0, line@, 0, vals.deep_view())
                && vals@.len() == crate::template::format_tags(format@).len(),
            None => !splittable(format@, 0, line@, 0),
        },
{
    let fv = crate::chars::str_to_chars(format);
    let lv = crate::chars::str_to_chars(line);
    match match_from(&fv, 0, &lv, 0) {
        Some(vals) => {
            proof {
                lemma_valid_split_len(format@, 0, line@, 0, vals.deep_view());
            }
            let mut out: Vec<String> = Vec::new();
            let mut q: usize = 0;
            while q < vals.len()
                invariant
                    q <= vals@.len(),
                    out@.len() == q,
                    out.deep_view() =~~= vals.deep_view().subrange(0, q as int),
                decreases vals@.len() - q,
            {
                let s = chars_to_string(&vals[q]);
                let ghost prev = out@;
                let ghost prev_dv = out.deep_view();
                out.push(s);
                proof {
                    assert(prev.len() == q as int);
                    assert(out@ == prev.push(s));
                    assert forall|t: int| 0 <= t <= q as int implies out.deep_view()[t]
                        == vals.deep_view()[t] by {
                        assert(out.deep_view()[t] == out@[t].deep_view());
                        if t < q as int {
                            assert(out@[t] == prev[t]);
                            assert(prev_dv[t] == prev[t].deep_view());
                            assert(prev_dv[t] == vals.deep_view().subrange(0, q as int)[t]);
                        } else {
                            assert(vals.deep_view()[t] == vals@[t].deep_view());
                            assert(vals@[t].deep_view() =~= vals@[t]@);
                        }
                    }
                    assert(out.deep_view() =~~= vals.deep_view().subrange(0, q as int + 1));
                }
                q = q + 1;
            }
            proof {
                assert(out.deep_view() =~~= vals.deep_view());
            }
            Some(out)
        },
        None => None,
    }
}

} // verus!
