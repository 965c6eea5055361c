//! The round-trip law: rendering a record through a format string and then
//! parsing the rendered line with the same format string gives back exactly
//! the values that were substituted in.
//!
//! The law cannot hold for every record. When two placeholders are
//! adjacent with no literal separator the split point is ambiguous, and
//! when a value contains text that also occurs as literal text of the
//! format, the literal separators can no longer be located uniquely
//! (format `%artist% - %title%` with artist `a`, title `b - c` renders to
//! `a - b - c`, where a greedy matcher captures artist `a - b`). The
//! precondition [`round_trip_safe`] excludes exactly these inputs: every
//! two placeholders are separated by literal text, and every substituted
//! value is non-empty and avoids the characters of the format's literal
//! text. Under it, *any* split the matcher can return equals the rendered
//! values.

use vstd::prelude::*;
use crate::template::{alpha_run_end, placeholder_at, tags_from, format_tags};
use crate::render::{value_of, render_from, render_spec, rendered_values_from, rendered_values};
use crate::pattern::{valid_split, splittable};

verus! {

/// The sequence `v` contains no character of the set `l`.
pub open spec fn avoids(v: Seq<char>, l: Set<char>) -> bool {
    forall|k: int| 0 <= k < v.len() ==> !l.contains(#[trigger] v[k])
}

/// The characters standing as literal text (outside every placeholder) in
/// the suffix of format string `f` starting at `i`.
pub open spec fn lit_chars_from(f: Seq<char>, i: int) -> Set<char>
    decreases f.len() - i,
{
    if i < 0 || i >= f.len() {
        Set::empty()
    } else if placeholder_at(f, i) {
        lit_chars_from(f, alpha_run_end(f, i + 1) + 1)
    } else {
        lit_chars_from(f, i + 1).insert(f[i])
    }
}

/// The literal characters of a whole format string.
pub open spec fn lit_chars(f: Seq<char>) -> Set<char> {
    lit_chars_from(f, 0)
}

/// No two placeholders of the suffix starting at `i` are adjacent: after
/// each placeholder comes literal text, or the end of the format string.
pub open spec fn separated_from(f: Seq<char>, i: int) -> bool
    decreases f.len() - i,
{
    if i < 0 || i >= f.len() {
        true
    } else if placeholder_at(f, i) {
        let nxt = alpha_run_end(f, i + 1) + 1;
        &&& (nxt >= f.len() || !placeholder_at(f, nxt))
        &&& separated_from(f, nxt)
    } else {
        separated_from(f, i + 1)
    }
}

/// No two placeholders of the format string are adjacent.
pub open spec fn separated(f: Seq<char>) -> bool {
    separated_from(f, 0)
}

/// Every captured value is non-empty and avoids the character set `l`.
pub open spec fn good_vals(vals: Seq<Seq<char>>, l: Set<char>) -> bool {
    forall|k: int|
        0 <= k < vals.len() ==> ((#[trigger] vals[k]).len() > 0 && avoids(vals[k], l))
}

/// The inputs on which the round trip is unambiguous: placeholders are
/// separated by literal text, and every value the record substitutes is
/// non-empty and shares no character with the format's literal text.
pub open spec fn round_trip_safe(f: Seq<char>, m: Map<Seq<char>, Seq<Seq<char>>>) -> bool {
    &&& separated(f)
    &&& forall|k: int|
        0 <= k < format_tags(f).len() ==> (value_of(m, #[trigger] format_tags(f)[k]).len() > 0
            && avoids(value_of(m, format_tags(f)[k]), lit_chars(f)))
}

proof fn lemma_good_vals_insert(vals: Seq<Seq<char>>, l: Set<char>, c: char)
    requires
        good_vals(vals, l.insert(c)),
    ensures
        good_vals(vals, l),
{
    assert forall|k: int| 0 <= k < vals.len() implies ((#[trigger] vals[k]).len() > 0
        && avoids(vals[k], l)) by {
        assert(vals[k].len() > 0);
        assert forall|t: int| 0 <= t < vals[k].len() implies !l.contains(#[trigger] vals[k][t]) by {
            assert(!l.insert(c).contains(vals[k][t]));
        }
    }
}

proof fn lemma_good_vals_drop_first(vals: Seq<Seq<char>>, l: Set<char>)
    requires
        good_vals(vals, l),
        vals.len() > 0,
    ensures
        good_vals(vals.drop_first(), l),
{
    assert forall|k: int| 0 <= k < vals.drop_first().len() implies ((#[trigger] vals.drop_first()[k]).len()
        > 0 && avoids(vals.drop_first()[k], l)) by {
        assert(vals.drop_first()[k] == vals[k + 1]);
    }
}

/// The rendered line of a format suffix always admits the rendered values
/// as a valid split, as long as every substituted value is non-empty.
proof fn lemma_render_split(
    f: Seq<char>,
    i: int,
    m: Map<Seq<char>, Seq<Seq<char>>>,
    line: Seq<char>,
    j: int,
)
    requires
        0 <= i <= f.len(),
        0 <= j <= line.len(),
        line.subrange(j, line.len() as int) == render_from(f, i, m),
        forall|k: int|
            0 <= k < tags_from(f, i).len() ==> value_of(m, #[trigger] tags_from(f, i)[k]).len() > 0,
    ensures
        valid_split(f, i, line, j, rendered_values_from(f, i, m)),
    decreases f.len() - i,
{
    let vals = rendered_values_from(f, i, m);
    if i >= f.len() {
        assert(render_from(f, i, m).len() == 0);
        assert(j == line.len());
        assert(tags_from(f, i).len() == 0);
        assert(vals.len() == 0);
    } else if placeholder_at(f, i) {
        let e = alpha_run_end(f, i + 1);
        let name = f.subrange(i + 1, e);
        let val = value_of(m, name);
        assert(tags_from(f, i)[0] == name);
        assert(val.len() > 0);
        assert(render_from(f, i, m) == val + render_from(f, e + 1, m));
        let j2 = j + val.len();
        assert(j2 <= line.len());
        assert forall|t: int| 0 <= t < val.len() implies line[j + t] == val[t] by {
            assert(line.subrange(j, line.len() as int)[t] == val[t]);
        }
        assert(line.subrange(j, j2) =~= val);
        let rest = render_from(f, e + 1, m);
        assert forall|t: int| 0 <= t < rest.len() implies line[j2 + t] == rest[t] by {
            assert(line.subrange(j, line.len() as int)[val.len() + t] == (val + rest)[val.len()
                + t]);
            assert((val + rest)[val.len() + t] == rest[t]);
        }
        assert(line.subrange(j2, line.len() as int) =~= rest);
        assert forall|k: int| 0 <= k < tags_from(f, e + 1).len() implies value_of(
            m,
            #[trigger] tags_from(f, e + 1)[k],
        ).len() > 0 by {
            assert(tags_from(f, i)[k + 1] == tags_from(f, e + 1)[k]);
        }
        lemma_render_split(f, e + 1, m, line, j2);
        assert(vals[0] == val);
        assert(vals.drop_first() =~= rendered_values_from(f, e + 1, m));
        assert(valid_split(f, i, line, j, vals));
    } else {
        assert(render_from(f, i, m) == seq![f[i]] + render_from(f, i + 1, m));
        assert(line.subrange(j, line.len() as int)[0] == f[i]);
        assert(line[j] == f[i]);
        let rest = render_from(f, i + 1, m);
        assert forall|t: int| 0 <= t < rest.len() implies line[j + 1 + t] == rest[t] by {
            assert(line.subrange(j, line.len() as int)[1 + t] == (seq![f[i]] + rest)[1 + t]);
            assert((seq![f[i]] + rest)[1 + t] == rest[t]);
        }
        assert(line.subrange(j + 1, line.len() as int) =~= rest);
        assert(tags_from(f, i) == tags_from(f, i + 1));
        lemma_render_split(f, i + 1, m, line, j + 1);
        assert(vals =~= rendered_values_from(f, i + 1, m));
    }
}

/// When a format suffix starts with literal text and already splits the
/// line at position `j` with values that avoid the literal characters, it
/// cannot also split the line at any later position.
proof fn lemma_no_shifted_split(
    f: Seq<char>,
    i: int,
    line: Seq<char>,
    j: int,
    p: int,
    v: Seq<Seq<char>>,
    w: Seq<Seq<char>>,
)
    requires
        0 <= i < f.len(),
        !placeholder_at(f, i),
        separated_from(f, i),
        valid_split(f, i, line, j, v),
        j < p,
        good_vals(v, lit_chars_from(f, i)),
    ensures
        !valid_split(f, i, line, p, w),
    decreases f.len() - i,
{
    if valid_split(f, i, line, p, w) {
        let c = f[i];
        assert(line[j] == c && line[p] == c);
        assert(valid_split(f, i + 1, line, j + 1, v));
        assert(valid_split(f, i + 1, line, p + 1, w));
        assert(lit_chars_from(f, i) == lit_chars_from(f, i + 1).insert(c));
        if i + 1 >= f.len() {
            assert(j + 1 == line.len() && p + 1 == line.len());
            assert(false);
        } else if !placeholder_at(f, i + 1) {
            lemma_good_vals_insert(v, lit_chars_from(f, i + 1), c);
            lemma_no_shifted_split(f, i + 1, line, j + 1, p + 1, v, w);
            assert(false);
        } else {
            let e2 = alpha_run_end(f, i + 2);
            let nxt = e2 + 1;
            assert(separated_from(f, i + 1));
            assert(lit_chars_from(f, i + 1) == lit_chars_from(f, nxt));
            assert(v.len() > 0 && w.len() > 0);
            let v0 = v[0];
            let w0 = w[0];
            let j1 = j + 1 + v0.len();
            let p1 = p + 1 + w0.len();
            assert(line.subrange(j + 1, j1) == v0);
            assert(valid_split(f, nxt, line, j1, v.drop_first()));
            assert(valid_split(f, nxt, line, p1, w.drop_first()));
            assert(v0.len() > 0 && avoids(v0, lit_chars_from(f, i)));
            // line[p] is the literal character c, so p cannot lie inside
            // the region the first value of v occupies.
            if p < j1 {
                assert(line[p] == v0[p - (j + 1)]);
                assert(lit_chars_from(f, i).contains(c));
                assert(!lit_chars_from(f, i).contains(v0[p - (j + 1)]));
                assert(false);
            } else if nxt >= f.len() {
                assert(j1 == line.len());
                assert(p < line.len());
                assert(false);
            } else {
                assert(!placeholder_at(f, nxt));
                assert(separated_from(f, nxt));
                lemma_good_vals_insert(v, lit_chars_from(f, i + 1), c);
                lemma_good_vals_drop_first(v, lit_chars_from(f, nxt));
                lemma_no_shifted_split(f, nxt, line, j1, p1, v.drop_first(), w.drop_first());
                assert(false);
            }
        }
    }
}

/// Under separated placeholders and values that avoid the literal
/// characters, a line admits at most one valid split.
proof fn lemma_split_unique(
    f: Seq<char>,
    i: int,
    line: Seq<char>,
    j: int,
    v: Seq<Seq<char>>,
    w: Seq<Seq<char>>,
)
    requires
        0 <= i <= f.len(),
        separated_from(f, i),
        valid_split(f, i, line, j, v),
        valid_split(f, i, line, j, w),
        good_vals(v, lit_chars_from(f, i)),
    ensures
        v == w,
    decreases f.len() - i,
{
    if i >= f.len() {
        assert(v.len() == 0 && w.len() == 0);
        assert(v =~= w);
    } else if !placeholder_at(f, i) {
        assert(lit_chars_from(f, i) == lit_chars_from(f, i + 1).insert(f[i]));
        lemma_good_vals_insert(v, lit_chars_from(f, i + 1), f[i]);
        lemma_split_unique(f, i + 1, line, j + 1, v, w);
    } else {
        let e = alpha_run_end(f, i + 1);
        let nxt = e + 1;
        assert(lit_chars_from(f, i) == lit_chars_from(f, nxt));
        let v0 = v[0];
        let w0 = w[0];
        let jv = j + v0.len();
        let jw = j + w0.len();
        assert(v0 == line.subrange(j, jv));
        assert(w0 == line.subrange(j, jw));
        assert(valid_split(f, nxt, line, jv, v.drop_first()));
        assert(valid_split(f, nxt, line, jw, w.drop_first()));
        assert(v0.len() > 0 && avoids(v0, lit_chars_from(f, i)));
        if nxt >= f.len() {
            assert(jv == line.len() && jw == line.len());
            assert(v0 =~= w0);
            assert(v.drop_first().len() == 0 && w.drop_first().len() == 0);
            assert(v =~= w);
        } else {
            assert(!placeholder_at(f, nxt));
            assert(lit_chars_from(f, nxt) == lit_chars_from(f, nxt + 1).insert(f[nxt]));
            assert(lit_chars_from(f, i).contains(f[nxt]));
            if jw < jv {
                // the literal character after the placeholder would have to
                // stand inside the region the first value of v occupies
                assert(line[jw] == f[nxt]);
                assert(line[jw] == v0[jw - j]);
                assert(!lit_chars_from(f, i).contains(v0[jw - j]));
                assert(false);
            } else if jw > jv {
                lemma_good_vals_drop_first(v, lit_chars_from(f, i));
                lemma_no_shifted_split(f, nxt, line, jv, jw, v.drop_first(), w.drop_first());
                assert(false);
            } else {
                assert(v0 =~= w0);
                lemma_good_vals_drop_first(v, lit_chars_from(f, i));
                lemma_split_unique(f, nxt, line, jv, v.drop_first(), w.drop_first());
                assert forall|t: int| 0 <= t < v.len() implies v[t] == w[t] by {
                    if t > 0 {
                        assert(v[t] == v.drop_first()[t - 1]);
                        assert(w[t] == w.drop_first()[t - 1]);
                    }
                }
                assert(v =~= w);
            }
        }
    }
}

/// The line rendered from a record always parses: it admits a valid split
/// (so the matcher returns captures for it), provided every substituted
/// value is non-empty.
pub proof fn lemma_rendered_line_matches(f: Seq<char>, m: Map<Seq<char>, Seq<Seq<char>>>)
    requires
        forall|k: int|
            0 <= k < format_tags(f).len() ==> value_of(m, #[trigger] format_tags(f)[k]).len() > 0,
    ensures
        splittable(f, 0, render_spec(f, m), 0),
{
    let line = render_spec(f, m);
    assert(line.subrange(0, line.len() as int) =~= line);
    assert forall|k: int| 0 <= k < tags_from(f, 0).len() implies value_of(
        m,
        #[trigger] tags_from(f, 0)[k],
    ).len() > 0 by {
        assert(tags_from(f, 0)[k] == format_tags(f)[k]);
    }
    lemma_render_split(f, 0, m, line, 0);
}

/// Round trip: any valid split of the rendered line — in particular the
/// one the matcher returns — equals the values the renderer substituted,
/// field for field, whenever the format string and the record are
/// [`round_trip_safe`].
pub proof fn lemma_render_parse_round_trip(
    f: Seq<char>,
    m: Map<Seq<char>, Seq<Seq<char>>>,
    w: Seq<Seq<char>>,
)
    requires
        round_trip_safe(f, m),
        valid_split(f, 0, render_spec(f, m), 0, w),
    ensures
        w == rendered_values(f, m),
{
    let line = render_spec(f, m);
    let v = rendered_values(f, m);
    assert(line.subrange(0, line.len() as int) =~= line);
    assert forall|k: int| 0 <= k < tags_from(f, 0).len() implies value_of(
        m,
        #[trigger] tags_from(f, 0)[k],
    ).len() > 0 by {
        assert(tags_from(f, 0)[k] == format_tags(f)[k]);
    }
    lemma_render_split(f, 0, m, line, 0);
    assert forall|k: int| 0 <= k < v.len() implies ((#[trigger] v[k]).len() > 0 && avoids(
        v[k],
        lit_chars_from(f, 0),
    )) by {
        assert(v[k] == value_of(m, format_tags(f)[k]));
    }
    lemma_split_unique(f, 0, line, 0, v, w);
}

} // verus!

