use vstd::prelude::*;
use vstd::string::StrSliceExecFns;
use vstd::string::StringExecFns;

verus! {

/// Exact character-for-character equality of two string slices.
pub fn str_eq(a: &str, b: &str) -> (r: bool)
    ensures
        r == (a@ == b@),
{
    let a_len = a.unicode_len();
    let b_len = b.unicode_len();
    if a_len != b_len {
        assert(a@ != b@) by {
            assert(a@.len() != b@.len());
        }
        return false;
    }
    let mut i: usize = 0;
    while i < a_len
        invariant
            i <= a_len,
            a_len == a@.len(),
            a_len == b@.len(),
            forall|j: int| 0 <= j < i ==> a@[j] == b@[j],
        decreases a_len - i,
    {
        if a.get_char(i) != b.get_char(i) {
            assert(a@[i as int] != b@[i as int]);
            return false;
        }
        i += 1;
    }
    proof {
        assert(a@ =~= b@);
    }
    true
}

/// Whether `s` is non-empty and its first character is `c`.
pub fn starts_with_char(s: &str, c: char) -> (r: bool)
    ensures
        r == (s@.len() > 0 && s@.first() == c),
{
    let len = s.unicode_len();
    len > 0 && s.get_char(0) == c
}

/// Whether `s` is non-empty and its last character is `c`.
pub fn ends_with_char(s: &str, c: char) -> (r: bool)
    ensures
        r == (s@.len() > 0 && s@.last() == c),
{
    let len = s.unicode_len();
    len > 0 && s.get_char(len - 1) == c
}

/// The characters of `s` from `from` (inclusive) to `to` (exclusive), as an
/// owned string.
pub fn substring(s: &str, from: usize, to: usize) -> (r: String)
    requires
        from <= to <= s@.len(),
    ensures
        r@ == s@.subrange(from as int, to as int),
{
    let piece = s.substring_char(from, to);
    piece.to_owned()
}

/// `s` without its first character.
pub fn strip_first(s: &str) -> (r: String)
    requires
        s@.len() > 0,
    ensures
        r@ == s@.drop_first(),
{
    let len = s.unicode_len();
    let r = substring(s, 1, len);
    proof {
        assert(r@ =~= s@.drop_first());
    }
    r
}

/// `s` without its last character.
pub fn strip_last(s: &str) -> (r: String)
    requires
        s@.len() > 0,
    ensures
        r@ == s@.drop_last(),
{
    let len = s.unicode_len();
    let r = substring(s, 0, len - 1);
    proof {
        assert(r@ =~= s@.drop_last());
    }
    r
}

/// `s` with the single character `c` appended.
pub fn push_char(s: String, c: char) -> (r: String)
    ensures
        r@ == s@.push(c),
{
    let piece: String = char_to_string(c);
    let r = s.concat(piece.as_str());
    proof {
        assert(r@ =~= s@.push(c));
    }
    r
}

/// A one-character string holding exactly `c`.
///
/// Relies on `char::to_string`: the returned `String` contains exactly the
/// one character it was called on.
#[verifier::external_body]
pub fn char_to_string(c: char) -> (r: String)
    ensures
        r@ == seq![c],
{
    c.to_string()
}

/// A copy of an optional string, contents preserved.
pub fn clone_opt_string(s: &Option<String>) -> (r: Option<String>)
    ensures
        r.deep_view() == s.deep_view(),
{
    match s {
        None => None,
        Some(m) => Some(m.clone()),
    }
}

} // verus!
