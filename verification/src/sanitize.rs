//! The metacharacter sanitizer: literal text of a format string is reused
//! verbatim inside the inverse-matching pattern, whose pattern language
//! gives special meaning to a fixed set of metacharacters. Sanitizing
//! escapes each of them with a backslash; all other characters (including
//! the `%` placeholder delimiter) pass through unchanged.

use vstd::prelude::*;
use crate::chars::push_char;

verus! {

/// The characters that are meaningful to the pattern language and must be
/// escaped: backslash, dot, plus, star, question mark, parentheses, pipe,
/// braces, brackets, caret, dollar.
pub open spec fn is_meta(c: char) -> bool {
    ||| c == '\\'
    ||| c == '.'
    ||| c == '+'
    ||| c == '*'
    ||| c == '?'
    ||| c == '('
    ||| c == ')'
    ||| c == '|'
    ||| c == '{'
    ||| c == '}'
    ||| c == '['
    ||| c == ']'
    ||| c == '^'
    ||| c == '$'
}

/// Executable test matching [`is_meta`].
pub fn meta_char(c: char) -> (r: bool)
    ensures
        r == is_meta(c),
{
    c == '\\' || c == '.' || c == '+' || c == '*' || c == '?' || c == '(' || c == ')'
        || c == '|' || c == '{' || c == '}' || c == '[' || c == ']' || c == '^' || c == '$'
}

/// What one character contributes to the sanitized text: a two-character
/// escape sequence for a metacharacter, the character itself otherwise.
pub open spec fn esc_char(c: char) -> Seq<char> {
    if is_meta(c) {
        seq!['\\', c]
    } else {
        seq![c]
    }
}

/// The sanitized form of the suffix of `s` starting at `i`.
pub open spec fn sanitize_from(s: Seq<char>, i: int) -> Seq<char>
    decreases s.len() - i,
{
    if i < 0 || i >= s.len() {
        Seq::empty()
    } else {
        esc_char(s[i]) + sanitize_from(s, i + 1)
    }
}

/// The sanitized form of a whole string.
pub open spec fn sanitize_spec(s: Seq<char>) -> Seq<char> {
    sanitize_from(s, 0)
}

/// Sanitizes a string for use in the pattern language by escaping every
/// metacharacter with a backslash.
pub fn sanitize_for_regex(string: &str) -> (r: String)
    ensures
        r@ == sanitize_spec(string@),
{
    let v = crate::chars::str_to_chars(string);
    let mut out = String::new();
    let mut i: usize = 0;
    while i < v.len()
        invariant
            v@ == string@,
            i <= v@.len(),
            out@ + sanitize_from(v@, i as int) =~= sanitize_spec(v@),
        decreases v@.len() - i,
    {
        if meta_char(v[i]) {
            push_char(&mut out, '\\');
        }
        push_char(&mut out, v[i]);
        i = i + 1;
    }
    proof {
        assert(out@ =~= sanitize_spec(string@));
    }
    out
}

/// Sanitizing is the identity on literal text devoid of metacharacters.
pub proof fn lemma_sanitize_identity_on_plain_text(s: Seq<char>)
    requires
        forall|k: int| 0 <= k < s.len() ==> !is_meta(#[trigger] s[k]),
    ensures
        sanitize_spec(s) == s,
{
    lemma_sanitize_from_identity(s, 0);
    assert(sanitize_spec(s) =~= s);
}

proof fn lemma_sanitize_from_identity(s: Seq<char>, i: int)
    requires
        0 <= i <= s.len(),
        forall|k: int| 0 <= k < s.len() ==> !is_meta(#[trigger] s[k]),
    ensures
        sanitize_from(s, i) =~= s.subrange(i, s.len() as int),
    decreases s.len() - i,
{
    if i < s.len() {
        lemma_sanitize_from_identity(s, i + 1);
    }
}

/// Sanitizing a single metacharacter produces the two-character escape
/// sequence: a backslash followed by the character itself.
pub proof fn lemma_sanitize_escapes_metacharacter(c: char)
    requires
        is_meta(c),
    ensures
        sanitize_spec(seq![c]) == seq!['\\', c],
{
    assert(sanitize_from(seq![c], 1) =~= Seq::empty());
    assert(sanitize_spec(seq![c]) =~= seq!['\\', c]);
}

} // verus!
