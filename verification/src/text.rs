//! Character classes and small string utilities shared by the registry and
//! manifest formats and by package-name validation.

use vstd::prelude::*;
use vstd::string::StrSliceExecFns;

verus! {

/// Characters allowed in package names and in the keys of the key/value
/// format: ASCII letters, digits, `-`, `_` and `.`.
pub open spec fn name_char(c: char) -> bool {
    (97 <= c as u32 <= 122)  // a-z
    || (65 <= c as u32 <= 90)  // A-Z
    || (48 <= c as u32 <= 57)  // 0-9
    || c == '-' || c == '_' || c == '.'
}

/// A valid package name: non-empty, made of `name_char`s, and usable as a
/// single path segment (so neither `.` nor `..`).
pub open spec fn valid_name_seq(s: Seq<char>) -> bool {
    &&& s.len() > 0
    &&& forall|i: int| 0 <= i < s.len() ==> name_char(#[trigger] s[i])
    &&& s != seq!['.']
    &&& s != seq!['.', '.']
}

/// Characters allowed inside a quoted string value: anything but the quote,
/// the backslash, and control characters. Keeping these out of stored values
/// is what lets the printer emit values verbatim, with no escaping.
pub open spec fn value_char(c: char) -> bool {
    c != '"' && c != '\\' && c as u32 >= 32
}

pub open spec fn value_str_ok(s: Seq<char>) -> bool {
    forall|i: int| 0 <= i < s.len() ==> value_char(#[trigger] s[i])
}

/// A decimal digit.
pub open spec fn dec_digit(c: char) -> bool {
    48 <= c as u32 <= 57
}

/// A hexadecimal digit.
pub open spec fn hex_digit(c: char) -> bool {
    (48 <= c as u32 <= 57) || (97 <= c as u32 <= 102) || (65 <= c as u32 <= 70)
}

/// A commit identifier as git prints one: exactly forty hex digits.
pub open spec fn commit_id_seq(s: Seq<char>) -> bool {
    s.len() == 40 && forall|i: int| 0 <= i < s.len() ==> hex_digit(#[trigger] s[i])
}

pub(crate) fn name_char_exec(c: char) -> (r: bool)
    ensures
        r == name_char(c),
{
    let u = c as u32;
    (97 <= u && u <= 122) || (65 <= u && u <= 90) || (48 <= u && u <= 57) || c == '-' || c == '_'
        || c == '.'
}

fn value_char_exec(c: char) -> (r: bool)
    ensures
        r == value_char(c),
{
    c != '"' && c != '\\' && c as u32 >= 32
}

fn hex_digit_exec(c: char) -> (r: bool)
    ensures
        r == hex_digit(c),
{
    let u = c as u32;
    (48 <= u && u <= 57) || (97 <= u && u <= 102) || (65 <= u && u <= 70)
}

/// Whether `s` is valid as a package name (a single, safe path segment).
pub fn is_valid_name(s: &str) -> (r: bool)
    ensures
        r == valid_name_seq(s@),
{
    let n = s.unicode_len();
    if n == 0 {
        return false;
    }
    let mut i: usize = 0;
    while i < n
        invariant
            n == s@.len(),
            0 <= i <= n,
            forall|j: int| 0 <= j < i ==> name_char(#[trigger] s@[j]),
        decreases n - i,
    {
        if !name_char_exec(s.get_char(i)) {
            return false;
        }
        i += 1;
    }
    if n == 1 && s.get_char(0) == '.' {
        proof {
            assert(s@ =~= seq!['.']);
        }
        return false;
    }
    if n == 2 && s.get_char(0) == '.' && s.get_char(1) == '.' {
        proof {
            assert(s@ =~= seq!['.', '.']);
        }
        return false;
    }
    proof {
        assert(s@ != seq!['.'] && s@ != seq!['.', '.']) by {
            if s@ == seq!['.'] {
                assert(s@.len() == 1 && s@[0] == '.');
            }
            if s@ == seq!['.', '.'] {
                assert(s@.len() == 2 && s@[0] == '.' && s@[1] == '.');
            }
        }
    }
    true
}

/// Whether `s` has the shape of a full commit identifier.
pub fn is_commit_id(s: &str) -> (r: bool)
    ensures
        r == commit_id_seq(s@),
{
    let n = s.unicode_len();
    if n != 40 {
        return false;
    }
    let mut i: usize = 0;
    while i < n
        invariant
            n == s@.len(),
            0 <= i <= n,
            forall|j: int| 0 <= j < i ==> hex_digit(#[trigger] s@[j]),
        decreases n - i,
    {
        if !hex_digit_exec(s.get_char(i)) {
            return false;
        }
        i += 1;
    }
    true
}

/// Whether every character of `s` may stand inside a quoted value.
pub fn is_value_str(s: &str) -> (r: bool)
    ensures
        r == value_str_ok(s@),
{
    let n = s.unicode_len();
    let mut i: usize = 0;
    while i < n
        invariant
            n == s@.len(),
            0 <= i <= n,
            forall|j: int| 0 <= j < i ==> value_char(#[trigger] s@[j]),
        decreases n - i,
    {
        if !value_char_exec(s.get_char(i)) {
            return false;
        }
        i += 1;
    }
    true
}

/// Character-for-character string equality, usable in contracts.
pub fn str_eq(a: &str, b: &str) -> (r: bool)
    ensures
        r == (a@ == b@),
{
    let n = a.unicode_len();
    let m = b.unicode_len();
    if n != m {
        return false;
    }
    let mut i: usize = 0;
    while i < n
        invariant
            n == a@.len(),
            n == b@.len(),
            0 <= i <= n,
            forall|j: int| 0 <= j < i ==> a@[j] == b@[j],
        decreases n - i,
    {
        if a.get_char(i) != b.get_char(i) {
            return false;
        }
        i += 1;
    }
    proof {
        assert(a@ =~= b@);
    }
    true
}

} // verus!
