//! Helpers on text.

use vstd::prelude::*;

verus! {

/// Whether two texts are the same.
pub fn same_text(a: &str, b: &str) -> (same: bool)
    ensures
        same == (a@ == b@),
{
    a.to_string() == b.to_string()
}

/// Whether `text` begins with `prefix`.
pub open spec fn begins_with(text: Seq<char>, prefix: Seq<char>) -> bool {
    &&& prefix.len() <= text.len()
    &&& text.take(prefix.len() as int) == prefix
}

/// Whether `text` begins with `prefix`.
pub fn starts_with(text: &str, prefix: &str) -> (starts: bool)
    ensures
        starts == begins_with(text@, prefix@),
{
    let len: usize = prefix.unicode_len();
    if len > text.unicode_len() {
        return false;
    }
    same_text(text.substring_char(0, len), prefix)
}

/// Puts texts one after the other.
pub fn joined_text(first: &str, second: &str, third: &str) -> (text: String)
    ensures
        text@ == first@ + second@ + third@,
{
    let mut text: String = first.to_string();
    text.append(second);
    text.append(third);
    text
}

/// A text begins with a prefix exactly if it is the prefix and something after it.
pub proof fn prefixes_are_followed(text: Seq<char>, prefix: Seq<char>, rest: Seq<char>)
    ensures
        begins_with(prefix + rest, prefix),
        begins_with(text, prefix) ==> text == prefix + text.skip(prefix.len() as int),
{
    assert((prefix + rest).take(prefix.len() as int) =~= prefix);
    if begins_with(text, prefix) {
        assert(text =~= text.take(prefix.len() as int) + text.skip(prefix.len() as int));
    }
}

/// A text is the same as another one exactly if it begins with it and is no longer, and texts that
/// are put one after the other begin with the first of them.
pub proof fn same_texts_begin_alike(
    a: &str,
    b: &str,
    same: bool,
    starts: bool,
    second: &str,
    third: &str,
    text: String,
)
    requires
        call_ensures(same_text, (a, b), same),
        call_ensures(starts_with, (a, b), starts),
        call_ensures(joined_text, (b, second, third), text),
    ensures
        same <==> starts && a@.len() == b@.len(),
        same <==> a@ == b@,
        a@ == text@ ==> starts,
        text@.len() == b@.len() + second@.len() + third@.len(),
        text@.skip(b@.len() as int) == second@ + third@,
{
    if starts && a@.len() == b@.len() {
        assert(a@ =~= a@.take(b@.len() as int));
    }
    if a@ == b@ {
        assert(a@.take(b@.len() as int) =~= b@);
    }
    assert(text@.take(b@.len() as int) =~= b@);
    assert(text@.skip(b@.len() as int) =~= second@ + third@);
}

} // verus!
