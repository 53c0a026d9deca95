use vstd::prelude::*;

verus! {

/// `s` begins with the character `c`.
pub open spec fn chars_start_with(s: Seq<char>, c: char) -> bool {
    s.len() > 0 && s[0] == c
}

/// Appends one character to a string.
///
/// Calls `String::push`, which std documents as appending the given `char`
/// to the end of the string; the contract states exactly that.
#[verifier::external_body]
pub(crate) fn push_char(s: &mut String, c: char)
    ensures
        final(s)@ == old(s)@.push(c),
{
    s.push(c);
}

/// Character-wise equality of two strings.
pub fn text_eq(a: &str, b: &str) -> (r: bool)
    ensures
        r == (a@ == b@),
{
    let n = a.unicode_len();
    if n != b.unicode_len() {
        return false;
    }
    let mut i: usize = 0;
    while i < n
        invariant
            n == a@.len(),
            n == b@.len(),
            i <= n,
            forall|j: int| 0 <= j < i ==> a@[j] == b@[j],
        decreases n - i,
    {
        if a.get_char(i) != b.get_char(i) {
            return false;
        }
        i = i + 1;
    }
    assert(a@ =~= b@);
    true
}

/// Whether `s` begins with the character `c`.
pub(crate) fn starts_with_char(s: &str, c: char) -> (r: bool)
    ensures
        r == chars_start_with(s@, c),
{
    let n = s.unicode_len();
    n > 0 && s.get_char(0) == c
}

} // verus!
