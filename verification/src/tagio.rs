//! Trusted boundary to the `metaflac` crate. A FLAC file's metadata is a
//! `metaflac::Tag`; its first vorbis-comment block holds the field values
//! as a map from field name to a list of values. The library reads and
//! edits that map in memory through the wrappers below; opening a file and
//! saving it back are left to the caller outside the library.
//!
//! `tag_fields` names the contents of the map: the field names and value
//! lists of the tag's first vorbis-comment block, or the empty map when
//! the tag has no such block.

use vstd::prelude::*;

verus! {

#[verifier::external_type_specification]
#[verifier::external_body]
pub struct ExTag(metaflac::Tag);

/// The field map of a tag: the `comments` of its first vorbis-comment
/// block (`metaflac::block::VorbisComment`), or the empty map if the tag
/// has no vorbis-comment block.
pub uninterp spec fn tag_fields(t: metaflac::Tag) -> Map<Seq<char>, Seq<Seq<char>>>;

/// Relies on `metaflac::Tag::vorbis_comments` and
/// `metaflac::block::VorbisComment::get`: `get` looks the key up in the
/// `comments` map of the first vorbis-comment block; the first element of
/// the stored value list is returned, if there is one.
#[verifier::external_body]
pub fn tag_get_first(t: &metaflac::Tag, key: &str) -> (r: Option<String>)
    ensures
        match r {
            Some(v) => tag_fields(*t).contains_key(key@) && tag_fields(*t)[key@].len() > 0
                && v@ == tag_fields(*t)[key@][0],
            None => !(tag_fields(*t).contains_key(key@) && tag_fields(*t)[key@].len() > 0),
        },
{
    match t.vorbis_comments() {
        Some(comment) => match comment.get(key) {
            Some(values) => values.first().cloned(),
            None => None,
        },
        None => None,
    }
}

/// Relies on `metaflac::Tag::vorbis_comments_mut` and
/// `metaflac::block::VorbisComment::set`: `vorbis_comments_mut` returns the
/// first vorbis-comment block, adding an empty one first when the tag has
/// none; `set` removes any previous values under the key and inserts the
/// given list, here a single value.
#[verifier::external_body]
pub fn tag_set_field(t: &mut metaflac::Tag, key: &str, value: &str)
    ensures
        tag_fields(*final(t)) == tag_fields(*old(t)).insert(key@, seq![value@]),
{
    t.vorbis_comments_mut().set(key, vec![value]);
}

/// Relies on `metaflac::Tag::vorbis_comments_mut` and
/// `metaflac::block::VorbisComment::remove`: removes every value stored
/// under the key in the first vorbis-comment block.
#[verifier::external_body]
pub fn tag_remove_field(t: &mut metaflac::Tag, key: &str)
    ensures
        tag_fields(*final(t)) == tag_fields(*old(t)).remove(key@),
{
    t.vorbis_comments_mut().remove(key);
}

} // verus!
