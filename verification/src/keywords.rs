//! Case-insensitive keywords of the input file.

use vstd::prelude::*;
use vstd::string::StringExecFns;
use vstd::utf8::is_ascii_chars;

verus! {

/// The upper-case form of a text.
pub uninterp spec fn upper(s: Seq<char>) -> Seq<char>;

/// The upper-case form of an ASCII character.
pub open spec fn ascii_upper_char(c: char) -> char {
    if 'a' <= c <= 'z' {
        ((c as u8 - 32) as u8) as char
    } else {
        c
    }
}

/// The upper-case form of an ASCII text.
pub open spec fn ascii_upper(s: Seq<char>) -> Seq<char> {
    Seq::new(s.len(), |i: int| ascii_upper_char(s[i]))
}

/// Calls `str::to_uppercase`: the result is the upper-case form of the text, which
/// depends on the text alone. In an ASCII text the letters `a` to `z` become `A` to
/// `Z` and all other characters stay. Of other texts nothing more is stated.
#[verifier::external_body]
pub(crate) fn uppercase(s: &str) -> (r: String)
    ensures
        r@ == upper(s@),
        is_ascii_chars(s@) ==> r@ == ascii_upper(s@),
{
    s.to_uppercase()
}

/// The result of reading a keyword: the choice it selects, or the label followed by the
/// text where it selects none.
pub open spec fn reads<T>(
    choice: Option<T>,
    label: Seq<char>,
    s: Seq<char>,
    r: Result<T, String>,
) -> bool {
    match choice {
        Some(t) => r == Ok::<T, String>(t),
        None => r matches Err(e) && e@ == label + s,
    }
}

/// Whether a text is the given word.
pub fn is_word(s: &String, word: &str) -> (b: bool)
    ensures
        b == (s@ == word@),
{
    let w: String = word.to_owned();
    *s == w
}

/// The message for a text that is no keyword: a label followed by the text.
pub fn unknown_keyword(label: &str, s: &str) -> (m: String)
    ensures
        m@ == label@ + s@,
{
    let mut m: String = label.to_owned();
    m.append(s);
    m
}

/// Letters lose their case and nothing else changes: the capital of an ASCII letter is 32 places
/// before it, and capitals and all other characters stay.
pub proof fn law_ascii_upper(s: Seq<char>, i: int)
    requires
        0 <= i < s.len(),
    ensures
        ascii_upper(s).len() == s.len(),
        'a' <= s[i] <= 'z' ==> ascii_upper(s)[i] as u32 + 32 == s[i] as u32,
        !('a' <= s[i] <= 'z') ==> ascii_upper(s)[i] == s[i],
{
}

/// Reading succeeds exactly where a choice is found, with that choice; otherwise it fails with the
/// label and the text.
pub proof fn law_reads<T>(choice: Option<T>, label: Seq<char>, s: Seq<char>, r: Result<T, String>)
    requires
        reads(choice, label, s, r),
    ensures
        r is Ok <==> choice is Some,
        r matches Ok(t) ==> choice == Some(t),
        r matches Err(e) ==> e@.len() == label.len() + s.len() && e@.take(label.len() as int) == label
            && e@.skip(label.len() as int) == s,
{
    if let Err(e) = r {
        assert(e@.take(label.len() as int) =~= label);
        assert(e@.skip(label.len() as int) =~= s);
    }
}

} // verus!
