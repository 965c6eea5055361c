//! The change extractor and applier. Parsed lines are paired with the
//! records they came from, giving one [`Changes`] per record: a list of
//! (field, new value) pairs. Applying a change compares the new value with
//! the value currently stored: equal values are left alone, a new value of
//! `none` removes the field, any other new value replaces it. The report
//! of the preview mode is produced by the same decision rule, so preview
//! and actual effect never diverge.

use vstd::prelude::*;
use crate::TagError;
use crate::chars::{str_eq, to_upper_string, upper_seq};
use crate::pattern::{match_line, valid_split, splittable, lemma_valid_split_len};
use crate::tagio::{tag_fields, tag_get_first, tag_set_field, tag_remove_field};
use crate::template::{format_tags, get_format_tags};

verus! {

/// What the applier does to one field, given the stored old value and the
/// candidate new value.
#[derive(Clone, Copy, Debug, PartialEq, Eq, Structural)]
pub enum ChangeAction {
    /// The new value replaces the stored one.
    SetValue,
    /// The field is removed entirely.
    RemoveField,
    /// Old and new value are equal: the field is left untouched.
    KeepField,
}

/// The decision rule of the change applier: equal values are kept, a new
/// value of `none` removes the field, any other differing value is set.
/// The rule depends on the two values alone, never on the field name.
pub open spec fn action_spec(old_value: Seq<char>, new_value: Seq<char>) -> ChangeAction {
    if old_value == new_value {
        ChangeAction::KeepField
    } else if new_value != "none"@ {
        ChangeAction::SetValue
    } else {
        ChangeAction::RemoveField
    }
}

/// Decides what to do with one field, by [`action_spec`].
pub fn decide_action(old_value: &str, new_value: &str) -> (r: ChangeAction)
    ensures
        r == action_spec(old_value@, new_value@),
{
    if str_eq(old_value, new_value) {
        ChangeAction::KeepField
    } else if !str_eq(new_value, "none") {
        ChangeAction::SetValue
    } else {
        ChangeAction::RemoveField
    }
}

/// The first value a field map stores under a key, or `none` when the key
/// is absent or stores no values: the old value the applier compares with.
pub open spec fn first_or_none(m: Map<Seq<char>, Seq<Seq<char>>>, key: Seq<char>) -> Seq<char> {
    if m.contains_key(key) && m[key].len() > 0 {
        m[key][0]
    } else {
        "none"@
    }
}

/// The effect of applying one (field, new value) pair to a field map.
pub open spec fn apply_one(
    m: Map<Seq<char>, Seq<Seq<char>>>,
    field: Seq<char>,
    value: Seq<char>,
) -> Map<Seq<char>, Seq<Seq<char>>> {
    match action_spec(first_or_none(m, field), value) {
        ChangeAction::KeepField => m,
        ChangeAction::SetValue => m.insert(field, seq![value]),
        ChangeAction::RemoveField => m.remove(field),
    }
}

/// The effect of applying the pairs from index `i` on, in order; each pair
/// sees the map as the pairs before it left it.
pub open spec fn apply_from(
    m: Map<Seq<char>, Seq<Seq<char>>>,
    fields: Seq<Seq<char>>,
    values: Seq<Seq<char>>,
    i: int,
) -> Map<Seq<char>, Seq<Seq<char>>>
    decreases fields.len() - i,
{
    if i < 0 || i >= fields.len() || i >= values.len() {
        m
    } else {
        apply_from(apply_one(m, fields[i], values[i]), fields, values, i + 1)
    }
}

/// The effect of applying a whole list of (field, new value) pairs.
pub open spec fn apply_changes(
    m: Map<Seq<char>, Seq<Seq<char>>>,
    fields: Seq<Seq<char>>,
    values: Seq<Seq<char>>,
) -> Map<Seq<char>, Seq<Seq<char>>> {
    apply_from(m, fields, values, 0)
}

/// What the preview mode says about one pair: nothing for a kept field,
/// one line for a set or removed one.
pub open spec fn report_line(field: Seq<char>, old_value: Seq<char>, new_value: Seq<char>) -> Seq<
    char,
> {
    match action_spec(old_value, new_value) {
        ChangeAction::KeepField => Seq::empty(),
        ChangeAction::SetValue => "field: "@ + field + ", old: "@ + old_value + ", new: "@
            + new_value + "\n"@,
        ChangeAction::RemoveField => "removing field: "@ + field + ", old value: "@ + old_value
            + "\n"@,
    }
}

/// The preview report of the pairs from index `i` on, against a fixed
/// field map (the preview never modifies the map).
pub open spec fn report_from(
    m: Map<Seq<char>, Seq<Seq<char>>>,
    fields: Seq<Seq<char>>,
    values: Seq<Seq<char>>,
    i: int,
) -> Seq<char>
    decreases fields.len() - i,
{
    if i < 0 || i >= fields.len() || i >= values.len() {
        Seq::empty()
    } else {
        report_line(fields[i], first_or_none(m, fields[i]), values[i]) + report_from(
            m,
            fields,
            values,
            i + 1,
        )
    }
}

/// The preview report of a whole list of pairs.
pub open spec fn report_spec(
    m: Map<Seq<char>, Seq<Seq<char>>>,
    fields: Seq<Seq<char>>,
    values: Seq<Seq<char>>,
) -> Seq<char> {
    report_from(m, fields, values, 0)
}

/// The placeholder names of a format string, upper-cased to the field
/// names the tag storage expects.
pub open spec fn upper_names(tags: Seq<Seq<char>>) -> Seq<Seq<char>> {
    tags.map_values(|n: Seq<char>| upper_seq(n))
}

/// A series of metadata changes meant for one file: the path of the file,
/// and a list of (field, new value) pairs held in two synchronized
/// vectors.
pub struct Changes {
    pub path_to_file: String,
    pub fields: Vec<String>,
    pub values: Vec<String>,
}

impl Changes {
    /// A new, empty change list for the file at the given path.
    pub fn new(path_to_file: String) -> (r: Changes)
        ensures
            r.path_to_file == path_to_file,
            r.fields@.len() == 0,
            r.values@.len() == 0,
    {
        Changes { path_to_file, fields: Vec::new(), values: Vec::new() }
    }

    /// Adds one pair: the field to be changed and its candidate new value.
    pub fn add_change(&mut self, field: &str, value: &str)
        ensures
            final(self).path_to_file == old(self).path_to_file,
            final(self).fields.deep_view() == old(self).fields.deep_view().push(field@),
            final(self).values.deep_view() == old(self).values.deep_view().push(value@),
    {
        let ghost pf = self.fields.deep_view();
        let ghost pv = self.values.deep_view();
        self.fields.push(String::from_str(field));
        self.values.push(String::from_str(value));
        proof {
            assert(self.fields.deep_view() =~~= pf.push(field@));
            assert(self.values.deep_view() =~~= pv.push(value@));
        }
    }

    /// Applies the pairs to a tag in memory, in order: for each field the
    /// stored old value is compared with the new one, and the field is
    /// kept, set or removed by the decision rule of [`action_spec`].
    pub fn make_changes(&self, tag: &mut metaflac::Tag)
        ensures
            tag_fields(*final(tag)) == apply_changes(
                tag_fields(*old(tag)),
                self.fields.deep_view(),
                self.values.deep_view(),
            ),
    {
        let ghost orig = tag_fields(*old(tag));
        let ghost fdv = self.fields.deep_view();
        let ghost vdv = self.values.deep_view();
        let mut i: usize = 0;
        while i < self.fields.len() && i < self.values.len()
            invariant
                i <= fdv.len(),
                fdv == self.fields.deep_view(),
                vdv == self.values.deep_view(),
                apply_from(tag_fields(*tag), fdv, vdv, i as int) == apply_changes(orig, fdv, vdv),
            decreases self.fields@.len() - i,
        {
            let ghost before = tag_fields(*tag);
            let field = &self.fields[i];
            let value = &self.values[i];
            proof {
                assert(fdv[i as int] == self.fields@[i as int]@);
                assert(vdv[i as int] == self.values@[i as int]@);
            }
            let old_value: String = match tag_get_first(tag, field.as_str()) {
                Some(v) => v,
                None => String::from_str("none"),
            };
            proof {
                assert(old_value@ == first_or_none(before, field@));
            }
            match decide_action(old_value.as_str(), value.as_str()) {
                ChangeAction::KeepField => {},
                ChangeAction::SetValue => {
                    tag_set_field(tag, field.as_str(), value.as_str());
                },
                ChangeAction::RemoveField => {
                    tag_remove_field(tag, field.as_str());
                },
            }
            proof {
                assert(tag_fields(*tag) == apply_one(before, fdv[i as int], vdv[i as int]));
            }
            i = i + 1;
        }
    }

    /// The preview of applying the pairs to a tag: one line per field that
    /// would actually change, produced by the same decision rule as
    /// [`Changes::make_changes`], without modifying anything.
    pub fn print_changes(&self, tag: &metaflac::Tag) -> (r: String)
        ensures
            r@ == report_spec(
                tag_fields(*tag),
                self.fields.deep_view(),
                self.values.deep_view(),
            ),
    {
        let ghost m = tag_fields(*tag);
        let ghost fdv = self.fields.deep_view();
        let ghost vdv = self.values.deep_view();
        let mut out = String::new();
        let mut i: usize = 0;
        while i < self.fields.len() && i < self.values.len()
            invariant
                i <= fdv.len(),
                fdv == self.fields.deep_view(),
                vdv == self.values.deep_view(),
                m == tag_fields(*tag),
                out@ + report_from(m, fdv, vdv, i as int) =~= report_spec(m, fdv, vdv),
            decreases self.fields@.len() - i,
        {
            let field = &self.fields[i];
            let value = &self.values[i];
            proof {
                assert(fdv[i as int] == self.fields@[i as int]@);
                assert(vdv[i as int] == self.values@[i as int]@);
            }
            let old_value: String = match tag_get_first(tag, field.as_str()) {
                Some(v) => v,
                None => String::from_str("none"),
            };
            proof {
                assert(old_value@ == first_or_none(m, field@));
            }
            match decide_action(old_value.as_str(), value.as_str()) {
                ChangeAction::KeepField => {},
                ChangeAction::SetValue => {
                    out.append("field: ");
                    out.append(field.as_str());
                    out.append(", old: ");
                    out.append(old_value.as_str());
                    out.append(", new: ");
                    out.append(value.as_str());
                    out.append("\n");
                },
                ChangeAction::RemoveField => {
                    out.append("removing field: ");
                    out.append(field.as_str());
                    out.append(", old value: ");
                    out.append(old_value.as_str());
                    out.append("\n");
                },
            }
            i = i + 1;
        }
        out
    }
}

/// Pairs the records (one per file path, in order) with the lines of the
/// edited store, parses each line with the format string, and produces one
/// [`Changes`] per record: the captured value of each placeholder becomes
/// the candidate new value of the upper-cased field. A count mismatch is
/// an alignment error; a line the pattern cannot match is a pattern-match
/// error. Nothing is applied yet.
pub fn create_changes(paths: &Vec<String>, format: &str, lines: &Vec<String>) -> (r: Result<
    Vec<Changes>,
    TagError,
>)
    ensures
        r is Ok <==> (paths@.len() == lines@.len() && (forall|i: int|
            0 <= i < lines@.len() ==> splittable(format@, 0, (#[trigger] lines@[i])@, 0))),
        r is Err ==> ((r->Err_0 is AlignmentError <==> paths@.len() != lines@.len()) && (
        r->Err_0 is AlignmentError || r->Err_0 is PatternMatchError)),
        r is Ok ==> {
            let cs = r->Ok_0;
            &&& cs@.len() == paths@.len()
            &&& forall|i: int|
                0 <= i < cs@.len() ==> {
                    &&& (#[trigger] cs@[i]).path_to_file@ == paths@[i]@
                    &&& cs@[i].fields.deep_view() == upper_names(format_tags(format@))
                    &&& valid_split(format@, 0, lines@[i]@, 0, cs@[i].values.deep_view())
                }
        },
{
    if paths.len() != lines.len() {
        return Err(TagError::AlignmentError);
    }
    let tags = get_format_tags(format);
    let mut out: Vec<Changes> = Vec::new();
    let mut i: usize = 0;
    while i < lines.len()
        invariant
            paths@.len() == lines@.len(),
            i <= lines@.len(),
            tags.deep_view() == format_tags(format@),
            out@.len() == i,
            forall|k: int| 0 <= k < i ==> splittable(format@, 0, (#[trigger] lines@[k])@, 0),
            forall|k: int|
                0 <= k < i ==> {
                    &&& (#[trigger] out@[k]).path_to_file@ == paths@[k]@
                    &&& out@[k].fields.deep_view() == upper_names(format_tags(format@))
                    &&& valid_split(format@, 0, lines@[k]@, 0, out@[k].values.deep_view())
                },
        decreases lines@.len() - i,
    {
        match match_line(format, lines[i].as_str()) {
            None => {
                return Err(TagError::PatternMatchError);
            },
            Some(vals) => {
                proof {
                    lemma_valid_split_len(format@, 0, lines@[i as int]@, 0, vals.deep_view());
                }
                let mut c = Changes::new(paths[i].clone());
                let mut q: usize = 0;
                while q < tags.len()
                    invariant
                        q <= tags@.len(),
                        tags.deep_view() == format_tags(format@),
                        vals@.len() == tags@.len(),
                        valid_split(format@, 0, lines@[i as int]@, 0, vals.deep_view()),
                        c.path_to_file@ == paths@[i as int]@,
                        c.fields.deep_view() =~~= upper_names(format_tags(format@)).subrange(
                            0,
                            q as int,
                        ),
                        c.values.deep_view() =~~= vals.deep_view().subrange(0, q as int),
                    decreases tags@.len() - q,
                {
                    let field = to_upper_string(tags[q].as_str());
                    c.add_change(field.as_str(), vals[q].as_str());
                    proof {
                        assert(tags.deep_view()[q as int] == tags@[q as int]@);
                        assert(upper_names(format_tags(format@))[q as int] == upper_seq(
                            tags@[q as int]@,
                        ));
                        assert(vals.deep_view()[q as int] == vals@[q as int]@);
                        assert(c.fields.deep_view() =~~= upper_names(
                            format_tags(format@),
                        ).subrange(0, q as int + 1));
                        assert(c.values.deep_view() =~~= vals.deep_view().subrange(
                            0,
                            q as int + 1,
                        ));
                    }
                    q = q + 1;
                }
                proof {
                    assert(c.fields.deep_view() =~~= upper_names(format_tags(format@)));
                    assert(c.values.deep_view() =~~= vals.deep_view());
                }
                out.push(c);
                i = i + 1;
            },
        }
    }
    Ok(out)
}

/// Builds the preview report of every record: one string per record, in
/// record order, produced without modifying any tag. The records and the
/// tags they refer to must come in equal number.
pub fn print_changes(changes: &Vec<Changes>, tags: &Vec<metaflac::Tag>) -> (r: Result<
    Vec<String>,
    TagError,
>)
    ensures
        r is Ok <==> changes@.len() == tags@.len(),
        r is Err ==> r->Err_0 is AlignmentError,
        r is Ok ==> {
            let reports = r->Ok_0;
            &&& reports@.len() == changes@.len()
            &&& forall|i: int|
                0 <= i < changes@.len() ==> (#[trigger] reports@[i])@ == report_spec(
                    tag_fields(tags@[i]),
                    changes@[i].fields.deep_view(),
                    changes@[i].values.deep_view(),
                )
        },
{
    if changes.len() != tags.len() {
        return Err(TagError::AlignmentError);
    }
    let mut reports: Vec<String> = Vec::new();
    let mut i: usize = 0;
    while i < changes.len()
        invariant
            changes@.len() == tags@.len(),
            i <= changes@.len(),
            reports@.len() == i,
            forall|k: int|
                0 <= k < i ==> (#[trigger] reports@[k])@ == report_spec(
                    tag_fields(tags@[k]),
                    changes@[k].fields.deep_view(),
                    changes@[k].values.deep_view(),
                ),
        decreases changes@.len() - i,
    {
        let rep = changes[i].print_changes(&tags[i]);
        reports.push(rep);
        i = i + 1;
    }
    Ok(reports)
}

/// Applies every record's changes to its tag in memory, in record order.
/// The records and the tags they refer to must come in equal number; on a
/// mismatch nothing is modified.
pub fn make_changes(changes: &Vec<Changes>, tags: &mut Vec<metaflac::Tag>) -> (r: Result<
    (),
    TagError,
>)
    ensures
        r is Ok <==> changes@.len() == old(tags)@.len(),
        r is Err ==> r->Err_0 is AlignmentError && final(tags)@ == old(tags)@,
        final(tags)@.len() == old(tags)@.len(),
        r is Ok ==> forall|i: int|
            0 <= i < changes@.len() ==> tag_fields(#[trigger] final(tags)@[i]) == apply_changes(
                tag_fields(old(tags)@[i]),
                changes@[i].fields.deep_view(),
                changes@[i].values.deep_view(),
            ),
{
    if changes.len() != tags.len() {
        return Err(TagError::AlignmentError);
    }
    let mut i: usize = 0;
    while i < changes.len()
        invariant
            changes@.len() == old(tags)@.len(),
            tags@.len() == old(tags)@.len(),
            i <= changes@.len(),
            forall|k: int|
                i <= k < tags@.len() ==> #[trigger] tags@[k] == old(tags)@[k],
            forall|k: int|
                0 <= k < i ==> tag_fields(#[trigger] tags@[k]) == apply_changes(
                    tag_fields(old(tags)@[k]),
                    changes@[k].fields.deep_view(),
                    changes@[k].values.deep_view(),
                ),
        decreases changes@.len() - i,
    {
        let c = &changes[i];
        c.make_changes(&mut tags[i]);
        i = i + 1;
    }
    Ok(())
}

} // verus!
