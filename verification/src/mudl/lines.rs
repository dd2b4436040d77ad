//! Line-level pieces shared by the MUDL block parsers.

use vstd::prelude::*;

use crate::text::{
    before_char, char_is_ws, first_piece, is_ws, lower_case_of, split_once, split_once_str,
    str_to_lowercase, trim, trim_seq,
};

verus! {

/// A source line without its `;` comment and surrounding whitespace.
pub open spec fn comment_free(line: Seq<char>) -> Seq<char> {
    trim_seq(before_char(line, ';'))
}

/// Drop a `;` comment and trim the line.
pub fn strip_comment(line: &str) -> (r: &str)
    ensures
        r@ == comment_free(line@),
{
    trim(first_piece(line, ';'))
}

/// Position of the first whitespace character of `s`.
pub open spec fn first_ws(s: Seq<char>) -> Option<int>
    decreases s.len(),
{
    if s.len() == 0 {
        None
    } else if is_ws(s[0]) {
        Some(0)
    } else {
        match first_ws(s.drop_first()) {
            Some(i) => Some(i + 1),
            None => None,
        }
    }
}

/// Position of the first whitespace character of `s`, if any.
pub fn find_ws(s: &str) -> (r: Option<usize>)
    ensures
        match r {
            Some(i) => first_ws(s@) == Some(i as int) && i < s@.len(),
            None => first_ws(s@) is None,
        },
{
    let n = s.unicode_len();
    let mut i: usize = 0;
    assert(s@.skip(0) =~= s@);
    while i < n
        invariant
            n == s@.len(),
            0 <= i <= n,
            first_ws(s@) == match first_ws(s@.skip(i as int)) {
                Some(j) => Some(j + i),
                None => None,
            },
        decreases n - i,
    {
        assert(s@.skip(i as int).drop_first() =~= s@.skip(i + 1));
        assert(s@.skip(i as int)[0] == s@[i as int]);
        if char_is_ws(s.get_char(i)) {
            return Some(i);
        }
        i += 1;
    }
    None
}

/// A `key=value` line: the key trimmed and in lower case, the value trimmed.
pub open spec fn key_value(line: Seq<char>) -> Option<(Seq<char>, Seq<char>)> {
    match split_once(line, "="@) {
        Some((k, v)) => Some((lower_case_of(trim_seq(k)), trim_seq(v))),
        None => None,
    }
}

/// Split a `key=value` line at its first `=`.
pub fn split_key_value(line: &str) -> (r: Option<(String, &str)>)
    ensures
        match r {
            Some((k, v)) => key_value(line@) == Some((k@, v@)),
            None => key_value(line@) is None,
        },
{
    match split_once_str(line, "=") {
        Some((k, v)) => Some((str_to_lowercase(trim(k)), trim(v))),
        None => None,
    }
}

} // verus!
