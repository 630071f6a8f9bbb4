//! Parses one dependency specifier token of the form `<name>-<version>`,
//! where the name is a nonempty run of letters, digits, `_` and `-`, and the
//! version begins with a dotted numeric run `<digits>.<digits>.<digits>` and
//! may carry an arbitrary suffix. The separator is the rightmost hyphen whose
//! right side begins with such a dotted run, so names may contain hyphens
//! and digits.
use vstd::prelude::*;

use crate::DepInfo;

verus! {

/// A character allowed in a package name: letter, digit, `_` or `-`.
pub open spec fn is_name_char(c: char) -> bool {
    ('a' <= c && c <= 'z') || ('A' <= c && c <= 'Z') || ('0' <= c && c <= '9') || c == '_' || c
        == '-'
}

/// The first position at `i` or later that does not hold a digit.
pub open spec fn skip_digits(t: Seq<char>, i: int) -> int
    decreases t.len() - i,
{
    if i < t.len() && crate::pkgver::is_digit(t[i]) {
        skip_digits(t, i + 1)
    } else {
        i
    }
}

/// `t` begins with `<digits>.<digits>.<digits>`.
pub open spec fn ver_prefix_ok(t: Seq<char>) -> bool {
    t.len() > 0 && crate::pkgver::is_digit(t[0]) && {
        let a = skip_digits(t, 0);
        a < t.len() && t[a] == '.' && a + 1 < t.len() && crate::pkgver::is_digit(t[a + 1]) && {
            let b = skip_digits(t, a + 1);
            b < t.len() && t[b] == '.' && b + 1 < t.len() && crate::pkgver::is_digit(t[b + 1])
        }
    }
}

/// Position `p` of `s` splits it into a valid name and a version beginning
/// with a dotted numeric run.
pub open spec fn dep_sep_ok(s: Seq<char>, p: int) -> bool {
    1 <= p < s.len() && s[p] == '-' && (forall|i: int| 0 <= i < p ==> is_name_char(s[i]))
        && ver_prefix_ok(s.skip(p + 1))
}

/// The rightmost valid separator position of `s` at `p` or earlier, or -1.
pub open spec fn last_dep_sep(s: Seq<char>, p: int) -> int
    decreases p + 1,
{
    if p < 1 {
        -1
    } else if dep_sep_ok(s, p) {
        p
    } else {
        last_dep_sep(s, p - 1)
    }
}

/// What a specifier token parses to: its name and version parts, split at
/// the rightmost valid separator, or nothing when no split is valid.
pub open spec fn depspec_spec(s: Seq<char>) -> Option<(Seq<char>, Seq<char>)> {
    let p = last_dep_sep(s, s.len() - 1);
    if p == -1 {
        None
    } else {
        Some((s.subrange(0, p), s.skip(p + 1)))
    }
}

fn is_name_char_exec(c: char) -> (r: bool)
    ensures
        r == is_name_char(c),
{
    ('a' <= c && c <= 'z') || ('A' <= c && c <= 'Z') || ('0' <= c && c <= '9') || c == '_' || c
        == '-'
}

fn skip_digits_exec(t: &Vec<char>, i: usize) -> (r: usize)
    requires
        i <= t@.len(),
    ensures
        r == skip_digits(t@, i as int),
        i <= r <= t@.len(),
    decreases t@.len() - i,
{
    if i < t.len() && '0' <= t[i] && t[i] <= '9' {
        skip_digits_exec(t, i + 1)
    } else {
        i
    }
}

fn ver_prefix_ok_exec(t: &Vec<char>) -> (r: bool)
    ensures
        r == ver_prefix_ok(t@),
{
    if t.len() == 0 {
        return false;
    }
    if !('0' <= t[0] && t[0] <= '9') {
        return false;
    }
    let a = skip_digits_exec(t, 0);
    if !(a < t.len() && t[a] == '.') {
        return false;
    }
    if !(a + 1 < t.len() && '0' <= t[a + 1] && t[a + 1] <= '9') {
        return false;
    }
    let b = skip_digits_exec(t, a + 1);
    if !(b < t.len() && t[b] == '.') {
        return false;
    }
    b + 1 < t.len() && '0' <= t[b + 1] && t[b + 1] <= '9'
}

fn dep_sep_ok_exec(s: &Vec<char>, p: usize) -> (r: bool)
    requires
        p < s@.len(),
    ensures
        r == dep_sep_ok(s@, p as int),
{
    let n = s.len();
    if p < 1 || s[p] != '-' {
        return false;
    }
    let mut i: usize = 0;
    while i < p
        invariant
            i <= p < n == s@.len(),
            forall|j: int| 0 <= j < i ==> is_name_char(s@[j]),
        decreases p - i,
    {
        if !is_name_char_exec(s[i]) {
            return false;
        }
        i = i + 1;
    }
    let t = crate::text::slice_of(s, p + 1, n);
    proof {
        assert(t@ =~= s@.skip(p + 1));
    }
    ver_prefix_ok_exec(&t)
}

fn last_dep_sep_exec(s: &Vec<char>, p: usize) -> (r: Option<usize>)
    requires
        p < s@.len(),
    ensures
        match r {
            Some(q) => last_dep_sep(s@, p as int) == q && q <= p,
            None => last_dep_sep(s@, p as int) == -1,
        },
    decreases p,
{
    if p < 1 {
        None
    } else if dep_sep_ok_exec(s, p) {
        Some(p)
    } else {
        last_dep_sep_exec(s, p - 1)
    }
}

/// Parses a specifier token into its name and version, or nothing when the
/// token does not have the `<name>-<version>` shape.
pub fn parse_depspec(token: &str) -> (r: Option<DepInfo>)
    ensures
        match r {
            Some(d) => depspec_spec(token@) == Some((d.name@, d.ver@)),
            None => depspec_spec(token@) is None,
        },
{
    let v = crate::text::chars_of(token);
    if v.len() == 0 {
        return None;
    }
    let p: usize = match last_dep_sep_exec(&v, v.len() - 1) {
        Some(p) => p,
        None => {
            return None;
        },
    };
    let name = String::from_str(token.substring_char(0, p));
    let ver = String::from_str(token.substring_char(p + 1, v.len()));
    proof {
        assert(name@ =~= token@.subrange(0, p as int));
        assert(ver@ =~= token@.skip(p + 1));
    }
    Some(DepInfo { name, ver })
}

} // verus!
