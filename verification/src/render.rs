//! The forward renderer: substitutes the field values of one record into a
//! format string, producing one output line. Literal characters are copied
//! unchanged; each `%name%` placeholder is replaced by the record's value
//! for the upper-cased field name, or by the literal text `none` when the
//! field is absent. Values are inserted as literal text, in a single pass:
//! a value is never re-scanned for placeholders or pattern syntax.
//!
//! One record must become exactly one line of the intermediate store, so a
//! rendered line must not embed a raw newline: a rendering whose outcome
//! would hold one is rejected with [`TagError::EmbeddedNewlineError`]
//! rather than emitted.

use vstd::prelude::*;
use crate::TagError;
use crate::chars::{sub_string, to_upper_string, upper_seq};
use crate::template::{alpha_run_end, placeholder_at, tags_from};
use crate::tagio::{tag_fields, tag_get_first};

verus! {

/// The value a field map gives for a placeholder name: the first stored
/// value under the upper-cased name, or `none` when the field is absent
/// or has no values.
pub open spec fn value_of(m: Map<Seq<char>, Seq<Seq<char>>>, name: Seq<char>) -> Seq<char> {
    let key = upper_seq(name);
    if m.contains_key(key) && m[key].len() > 0 {
        m[key][0]
    } else {
        "none"@
    }
}

/// The rendering of the suffix of format string `s` starting at `i`:
/// literal characters are copied, placeholders are replaced by the field
/// map's value for their name.
pub open spec fn render_from(s: Seq<char>, i: int, m: Map<Seq<char>, Seq<Seq<char>>>) -> Seq<char>
    decreases s.len() - i,
{
    if i < 0 || i >= s.len() {
        Seq::empty()
    } else if placeholder_at(s, i) {
        let e = alpha_run_end(s, i + 1);
        value_of(m, s.subrange(i + 1, e)) + render_from(s, e + 1, m)
    } else {
        seq![s[i]] + render_from(s, i + 1, m)
    }
}

/// The rendering of a whole format string against a field map.
pub open spec fn render_spec(s: Seq<char>, m: Map<Seq<char>, Seq<Seq<char>>>) -> Seq<char> {
    render_from(s, 0, m)
}

/// The values the placeholders of the suffix starting at `i` render to,
/// in placeholder order.
pub open spec fn rendered_values_from(
    s: Seq<char>,
    i: int,
    m: Map<Seq<char>, Seq<Seq<char>>>,
) -> Seq<Seq<char>> {
    tags_from(s, i).map_values(|name: Seq<char>| value_of(m, name))
}

/// The values the placeholders of a whole format string render to.
pub open spec fn rendered_values(s: Seq<char>, m: Map<Seq<char>, Seq<Seq<char>>>) -> Seq<Seq<char>> {
    rendered_values_from(s, 0, m)
}

/// The pattern occurs in `s` at position `i`.
pub open spec fn occurs_at(s: Seq<char>, pat: Seq<char>, i: int) -> bool {
    0 <= i && i + pat.len() <= s.len() && s.subrange(i, i + pat.len()) == pat
}

/// The first position at or after `i` where the pattern occurs in `s`, or
/// `-1` when it does not occur.
pub open spec fn find_from(s: Seq<char>, pat: Seq<char>, i: int) -> int
    decreases s.len() + 1 - i,
{
    if i < 0 || i + pat.len() > s.len() {
        -1
    } else if occurs_at(s, pat, i) {
        i
    } else {
        find_from(s, pat, i + 1)
    }
}

/// The delimited token a placeholder name stands in the format string as.
pub open spec fn token_of(name: Seq<char>) -> Seq<char> {
    seq!['%'] + name + seq!['%']
}

/// `s` with the first occurrence of the pattern replaced by `val`, taken
/// as literal text; `s` unchanged when the pattern does not occur.
pub open spec fn replace_first_spec(s: Seq<char>, pat: Seq<char>, val: Seq<char>) -> Seq<char> {
    let j = find_from(s, pat, 0);
    if j < 0 {
        s
    } else {
        s.subrange(0, j) + val + s.subrange(j + pat.len(), s.len() as int)
    }
}

fn occurs_at_exec(v: &Vec<char>, pat: &Vec<char>, i: usize) -> (r: bool)
    requires
        i + pat@.len() <= v@.len(),
    ensures
        r == occurs_at(v@, pat@, i as int),
{
    let n = v.len();
    let m = pat.len();
    let mut k: usize = 0;
    while k < m
        invariant
            n == v@.len(),
            m == pat@.len(),
            i + m <= n,
            k <= m,
            forall|t: int| 0 <= t < k ==> v@[i + t] == pat@[t],
        decreases m - k,
    {
        if v[i + k] != pat[k] {
            proof {
                assert(v@.subrange(i as int, i + pat@.len())[k as int] == v@[i + k]);
            }
            return false;
        }
        k = k + 1;
    }
    proof {
        assert(v@.subrange(i as int, i + pat@.len()) =~= pat@);
    }
    true
}

/// Replaces the first occurrence of the delimited token `%field%` in the
/// string with the value, inserted as literal text, never re-interpreted;
/// a string without the token is returned unchanged.
pub fn replace_field_in_string(string: String, field: &str, value: &str) -> (r: String)
    ensures
        r@ == replace_first_spec(string@, token_of(field@), value@),
{
    let v = crate::chars::str_to_chars(string.as_str());
    let mut pat: Vec<char> = Vec::new();
    pat.push('%');
    let fv = crate::chars::str_to_chars(field);
    let mut t: usize = 0;
    while t < fv.len()
        invariant
            fv@ == field@,
            t <= fv@.len(),
            pat@ == seq!['%'] + field@.subrange(0, t as int),
        decreases fv@.len() - t,
    {
        pat.push(fv[t]);
        t = t + 1;
        proof {
            assert(pat@ =~= seq!['%'] + field@.subrange(0, t as int));
        }
    }
    pat.push('%');
    proof {
        assert(field@.subrange(0, field@.len() as int) =~= field@);
        assert(pat@ =~= token_of(field@));
    }

    let n = v.len();
    let m = pat.len();
    if m > n {
        proof {
            assert(find_from(v@, pat@, 0) == -1);
        }
        return string;
    }
    let mut i: usize = 0;
    while i <= n - m
        invariant
            v@ == string@,
            n == v@.len(),
            m == pat@.len(),
            m <= n,
            pat@ == token_of(field@),
            pat@.len() >= 2,
            i <= n + 1 - m,
            find_from(v@, pat@, 0) == find_from(v@, pat@, i as int),
        decreases v@.len() - i,
    {
        if occurs_at_exec(&v, &pat, i) {
            let mut out = crate::chars::sub_string(&v, 0, i);
            out.append(value);
            let tail = crate::chars::sub_string(&v, i + m, n);
            out.append(tail.as_str());
            proof {
                assert(find_from(v@, pat@, i as int) == i as int);
                assert(out@ =~= replace_first_spec(string@, token_of(field@), value@));
            }
            return out;
        }
        i = i + 1;
    }
    proof {
        assert(find_from(v@, pat@, i as int) == -1);
    }
    string
}

/// The text can stand as one line of the intermediate store: it embeds no
/// raw newline, so record-to-line alignment is preserved.
pub open spec fn line_safe(s: Seq<char>) -> bool {
    forall|k: int| 0 <= k < s.len() ==> s[k] != '\n'
}

/// Executable test matching [`line_safe`].
pub fn line_safe_exec(s: &str) -> (r: bool)
    ensures
        r == line_safe(s@),
{
    let n = s.unicode_len();
    let mut i: usize = 0;
    while i < n
        invariant
            n == s@.len(),
            i <= n,
            forall|k: int| 0 <= k < i ==> s@[k] != '\n',
        decreases n - i,
    {
        if s.get_char(i) == '\n' {
            return false;
        }
        i = i + 1;
    }
    true
}

/// The substitution pass behind [`render_line`]; the newline check is the
/// caller's.
fn render_raw(format: &str, tag: &metaflac::Tag) -> (r: String)
    ensures
        r@ == render_spec(format@, tag_fields(*tag)),
{
    let v = crate::chars::str_to_chars(format);
    let mut out = String::new();
    let mut i: usize = 0;
    while i < v.len()
        invariant
            v@ == format@,
            i <= v@.len(),
            out@ + render_from(v@, i as int, tag_fields(*tag)) =~= render_spec(v@, tag_fields(*tag)),
        decreases v@.len() - i,
    {
        match crate::template::check_placeholder(&v, i) {
            Some(e) => {
                let name = sub_string(&v, i + 1, e);
                let key = to_upper_string(name.as_str());
                match tag_get_first(tag, key.as_str()) {
                    Some(value) => {
                        out.append(value.as_str());
                    },
                    None => {
                        out.append("none");
                    },
                }
                i = e + 1;
            },
            None => {
                crate::chars::push_char(&mut out, v[i]);
                i = i + 1;
            },
        }
    }
    out
}

/// Renders the tags of one file into a line of text, following the format
/// string: `%name%` becomes the first value stored under the upper-cased
/// field name, or `none` when the field is absent. A rendered line must
/// not embed a raw newline — it would corrupt the store's record-to-line
/// alignment — so a substitution whose outcome holds one is rejected
/// instead of emitted.
pub fn render_line(format: &str, tag: &metaflac::Tag) -> (r: Result<String, TagError>)
    ensures
        r is Ok <==> line_safe(render_spec(format@, tag_fields(*tag))),
        r is Ok ==> r->Ok_0@ == render_spec(format@, tag_fields(*tag)),
        r is Err ==> r->Err_0 is EmbeddedNewlineError,
{
    let out = render_raw(format, tag);
    if line_safe_exec(out.as_str()) {
        Ok(out)
    } else {
        Err(TagError::EmbeddedNewlineError)
    }
}

/// Renders one line per tag, in tag order: the compute step of writing a
/// whole directory's metadata to the intermediate store. Fails, and hands
/// no lines out, when any record's rendering would embed a raw newline.
pub fn render_lines(format: &str, tags: &Vec<metaflac::Tag>) -> (r: Result<Vec<String>, TagError>)
    ensures
        r is Ok <==> (forall|i: int|
            0 <= i < tags@.len() ==> line_safe(
                render_spec(format@, tag_fields(#[trigger] tags@[i])),
            )),
        r is Err ==> r->Err_0 is EmbeddedNewlineError,
        r is Ok ==> {
            let lines = r->Ok_0;
            &&& lines@.len() == tags@.len()
            &&& forall|i: int|
                0 <= i < tags@.len() ==> (#[trigger] lines@[i])@ == render_spec(
                    format@,
                    tag_fields(tags@[i]),
                )
        },
{
    let mut out: Vec<String> = Vec::new();
    let mut i: usize = 0;
    while i < tags.len()
        invariant
            i <= tags@.len(),
            out@.len() == i,
            forall|k: int|
                0 <= k < i ==> line_safe(render_spec(format@, tag_fields(#[trigger] tags@[k]))),
            forall|k: int|
                0 <= k < i ==> (#[trigger] out@[k])@ == render_spec(format@, tag_fields(tags@[k])),
        decreases tags@.len() - i,
    {
        match render_line(format, &tags[i]) {
            Ok(line) => {
                out.push(line);
            },
            Err(err) => {
                return Err(err);
            },
        }
        i = i + 1;
    }
    Ok(out)
}

} // verus!
