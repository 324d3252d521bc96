//! Small verified helpers on strings: equality, the account-name prefix
//! strip used by the host wire format, and substring search.

use vstd::prelude::*;

verus! {

/// Character-for-character equality of two string slices.
pub fn str_eq(a: &str, b: &str) -> (r: bool)
    ensures
        r <==> a@ == b@,
{
    let a_len = a.unicode_len();
    let b_len = b.unicode_len();
    if a_len != b_len {
        proof {
            assert(a@ != b@);
        }
        return false;
    }
    let mut i: usize = 0;
    while i < a_len
        invariant
            i <= a_len,
            a_len == a@.len(),
            a_len == b@.len(),
            forall|j: int| 0 <= j < i ==> a@[j] == b@[j],
        decreases a_len - i,
    {
        if a.get_char(i) != b.get_char(i) {
            return false;
        }
        i += 1;
    }
    proof {
        assert(a@ =~= b@);
    }
    true
}

/// The view of an account name with the host protocol's single leading
/// sentinel character removed, if one is present.
pub open spec fn stripped_name(raw: Seq<char>) -> Seq<char> {
    if raw.len() > 0 && raw[0] == ':' {
        raw.skip(1)
    } else {
        raw
    }
}

/// Remove the single leading `':'` that the host wire format prepends to
/// account names, returning an owned copy of the rest.
pub fn strip_account_prefix(raw: &str) -> (name: String)
    ensures
        name@ == stripped_name(raw@),
{
    let len = raw.unicode_len();
    if len > 0 && raw.get_char(0) == ':' {
        let rest = raw.substring_char(1, len);
        proof {
            assert(rest@ =~= raw@.skip(1));
        }
        rest.to_owned()
    } else {
        raw.to_owned()
    }
}

/// Position of the first occurrence of `c` in `s` at or after `from`.
pub fn find_char_from(s: &str, c: char, from: usize) -> (position: Option<usize>)
    requires
        from <= s@.len(),
    ensures
        match position {
            Some(i) => from <= i < s@.len() && s@[i as int] == c && forall|j: int|
                from <= j < i ==> s@[j] != c,
            None => forall|j: int| from <= j < s@.len() ==> s@[j] != c,
        },
{
    let len = s.unicode_len();
    let mut i: usize = from;
    while i < len
        invariant
            from <= i <= len,
            len == s@.len(),
            forall|j: int| from <= j < i ==> s@[j] != c,
        decreases len - i,
    {
        if s.get_char(i) == c {
            return Some(i);
        }
        i += 1;
    }
    None
}

/// `s` ends with `suffix`.
pub fn str_ends_with(s: &str, suffix: &str) -> (r: bool)
    ensures
        r <==> (s@.len() >= suffix@.len() && s@.skip(s@.len() - suffix@.len()) == suffix@),
{
    let s_len = s.unicode_len();
    let suffix_len = suffix.unicode_len();
    if s_len < suffix_len {
        return false;
    }
    let tail = s.substring_char(s_len - suffix_len, s_len);
    proof {
        assert(tail@ =~= s@.skip(s@.len() - suffix@.len()));
    }
    str_eq(tail, suffix)
}

} // verus!
