//! Decodes a manifest path into its package name and dotted version.
//!
//! A path decodes when its final component has the shape
//! `<name>-<version>[-r<digits>].ebuild`, where the name starts with a word
//! character or `+` and continues with word characters, `+`, `.` or `-`, and
//! the version is a dotted numeric run, an optional single lowercase letter,
//! and any number of `_pre`/`_p`/`_beta`/`_alpha`/`_rc` suffixes each
//! followed by optional digits. The separator between name and version is the
//! leftmost hyphen whose right side parses as a version (with optional
//! revision), so a name may itself contain hyphens and digits.
use vstd::prelude::*;

verus! {

/// An ASCII decimal digit.
pub open spec fn is_digit(c: char) -> bool {
    '0' <= c && c <= '9'
}

/// A lowercase ASCII letter.
pub open spec fn is_lower(c: char) -> bool {
    'a' <= c && c <= 'z'
}

/// A word character: letter, digit or underscore.
pub open spec fn is_word_char(c: char) -> bool {
    is_digit(c) || is_lower(c) || ('A' <= c && c <= 'Z') || c == '_'
}

/// A character allowed to start a package name.
pub open spec fn is_pn_first(c: char) -> bool {
    is_word_char(c) || c == '+'
}

/// A character allowed inside a package name.
pub open spec fn is_pn_char(c: char) -> bool {
    is_word_char(c) || c == '+' || c == '.' || c == '-'
}

/// A valid package name: nonempty, with an allowed first character.
pub open spec fn pn_ok(s: Seq<char>) -> bool {
    s.len() >= 1 && is_pn_first(s[0]) && forall|i: int| 1 <= i < s.len() ==> is_pn_char(s[i])
}

/// `s[i..]` is a version: a digit starting a dotted numeric run.
pub open spec fn ver_start(s: Seq<char>, i: int) -> bool
    decreases s.len() - i, 3int,
{
    i < s.len() && is_digit(s[i]) && ver_digits(s, i + 1)
}

/// Continuation inside a digit run of the dotted part: more digits, a dotted
/// group, the optional letter, a suffix, or the end.
pub open spec fn ver_digits(s: Seq<char>, i: int) -> bool
    decreases s.len() - i, 2int,
{
    if i >= s.len() {
        true
    } else if is_digit(s[i]) {
        ver_digits(s, i + 1)
    } else if s[i] == '.' {
        i + 1 < s.len() && is_digit(s[i + 1]) && ver_digits(s, i + 2)
    } else if is_lower(s[i]) {
        ver_letter_done(s, i + 1)
    } else if s[i] == '_' {
        ver_kw(s, i + 1)
    } else {
        false
    }
}

/// Continuation after the single letter: only suffixes or the end.
pub open spec fn ver_letter_done(s: Seq<char>, i: int) -> bool
    decreases s.len() - i, 1int,
{
    if i >= s.len() {
        true
    } else if s[i] == '_' {
        ver_kw(s, i + 1)
    } else {
        false
    }
}

/// A suffix keyword starts at `i`: `pre`, `p`, `beta`, `alpha` or `rc`,
/// longest keyword first.
pub open spec fn ver_kw(s: Seq<char>, i: int) -> bool
    decreases s.len() - i, 0int,
{
    if i + 3 <= s.len() && s[i] == 'p' && s[i + 1] == 'r' && s[i + 2] == 'e' {
        ver_suf_digits(s, i + 3)
    } else if i + 4 <= s.len() && s[i] == 'b' && s[i + 1] == 'e' && s[i + 2] == 't' && s[i + 3]
        == 'a' {
        ver_suf_digits(s, i + 4)
    } else if i + 5 <= s.len() && s[i] == 'a' && s[i + 1] == 'l' && s[i + 2] == 'p' && s[i + 3]
        == 'h' && s[i + 4] == 'a' {
        ver_suf_digits(s, i + 5)
    } else if i + 2 <= s.len() && s[i] == 'r' && s[i + 1] == 'c' {
        ver_suf_digits(s, i + 2)
    } else if i + 1 <= s.len() && s[i] == 'p' {
        ver_suf_digits(s, i + 1)
    } else {
        false
    }
}

/// Continuation after a suffix keyword: optional digits, then another suffix
/// or the end.
pub open spec fn ver_suf_digits(s: Seq<char>, i: int) -> bool
    decreases s.len() - i, 1int,
{
    if i >= s.len() {
        true
    } else if is_digit(s[i]) {
        ver_suf_digits(s, i + 1)
    } else if s[i] == '_' {
        ver_kw(s, i + 1)
    } else {
        false
    }
}

/// The whole of `s` is a version.
pub open spec fn is_ver(s: Seq<char>) -> bool {
    ver_start(s, 0)
}

/// A revision suffix: `-r` followed by at least one digit.
pub open spec fn rev_ok(s: Seq<char>) -> bool {
    s.len() >= 3 && s[0] == '-' && s[1] == 'r' && forall|i: int| 2 <= i < s.len() ==> is_digit(
        s[i],
    )
}

/// The position of the first hyphen of `s` at `i` or later, or -1.
pub open spec fn first_hyphen(s: Seq<char>, i: int) -> int
    decreases s.len() - i,
{
    if i >= s.len() {
        -1
    } else if s[i] == '-' {
        i
    } else {
        first_hyphen(s, i + 1)
    }
}

/// The length of the version part of `tail`: up to its first hyphen (which
/// can only begin a revision), or all of it.
pub open spec fn tail_ver_len(tail: Seq<char>) -> int {
    let q = first_hyphen(tail, 0);
    if q == -1 {
        tail.len() as int
    } else {
        q
    }
}

/// `tail` is a version followed by an optional revision suffix.
pub open spec fn tail_ok(tail: Seq<char>) -> bool {
    let vl = tail_ver_len(tail);
    is_ver(tail.subrange(0, vl)) && (vl == tail.len() || rev_ok(tail.skip(vl)))
}

/// Position `p` of `core` splits it into a valid name and a valid
/// version-with-revision tail.
pub open spec fn sep_ok(core: Seq<char>, p: int) -> bool {
    1 <= p < core.len() && core[p] == '-' && pn_ok(core.subrange(0, p)) && tail_ok(
        core.skip(p + 1),
    )
}

/// The leftmost valid separator position of `core` at `p` or later, or -1.
pub open spec fn first_sep(core: Seq<char>, p: int) -> int
    decreases core.len() - p,
{
    if p >= core.len() {
        -1
    } else if sep_ok(core, p) {
        p
    } else {
        first_sep(core, p + 1)
    }
}

/// The position of the last `/` of `s`, or -1.
pub open spec fn last_slash(s: Seq<char>) -> int
    decreases s.len(),
{
    if s.len() == 0 {
        -1
    } else if s[s.len() - 1] == '/' {
        s.len() - 1
    } else {
        last_slash(s.drop_last())
    }
}

/// `base` ends with `.ebuild`.
pub open spec fn ebuild_suffix(base: Seq<char>) -> bool {
    base.len() >= 7 && base[base.len() - 7] == '.' && base[base.len() - 6] == 'e' && base[base.len()
        - 5] == 'b' && base[base.len() - 4] == 'u' && base[base.len() - 3] == 'i' && base[base.len()
        - 2] == 'l' && base[base.len() - 1] == 'd'
}

/// What a manifest path decodes to: the package name and version of its
/// final `<name>-<version>[-r<digits>].ebuild` component, if it has one.
pub open spec fn decode_spec(path: Seq<char>) -> Option<(Seq<char>, Seq<char>)> {
    let k = last_slash(path);
    if k == -1 {
        None
    } else {
        let base = path.skip(k + 1);
        if !ebuild_suffix(base) {
            None
        } else {
            let core = base.subrange(0, base.len() - 7);
            let p = first_sep(core, 1);
            if p == -1 {
                None
            } else {
                let tail = core.skip(p + 1);
                Some((core.subrange(0, p), tail.subrange(0, tail_ver_len(tail))))
            }
        }
    }
}

fn is_digit_exec(c: char) -> (r: bool)
    ensures
        r == is_digit(c),
{
    '0' <= c && c <= '9'
}

fn is_lower_exec(c: char) -> (r: bool)
    ensures
        r == is_lower(c),
{
    'a' <= c && c <= 'z'
}

fn is_pn_first_exec(c: char) -> (r: bool)
    ensures
        r == is_pn_first(c),
{
    is_digit_exec(c) || is_lower_exec(c) || ('A' <= c && c <= 'Z') || c == '_' || c == '+'
}

fn is_pn_char_exec(c: char) -> (r: bool)
    ensures
        r == is_pn_char(c),
{
    is_pn_first_exec(c) || c == '.' || c == '-'
}

fn ver_start_exec(s: &Vec<char>, i: usize) -> (r: bool)
    requires
        i <= s@.len(),
    ensures
        r == ver_start(s@, i as int),
    decreases s@.len() - i, 3int,
{
    i < s.len() && is_digit_exec(s[i]) && ver_digits_exec(s, i + 1)
}

fn ver_digits_exec(s: &Vec<char>, i: usize) -> (r: bool)
    requires
        i <= s@.len(),
    ensures
        r == ver_digits(s@, i as int),
    decreases s@.len() - i, 2int,
{
    if i >= s.len() {
        true
    } else if is_digit_exec(s[i]) {
        ver_digits_exec(s, i + 1)
    } else if s[i] == '.' {
        i + 1 < s.len() && is_digit_exec(s[i + 1]) && ver_digits_exec(s, i + 2)
    } else if is_lower_exec(s[i]) {
        ver_letter_done_exec(s, i + 1)
    } else if s[i] == '_' {
        ver_kw_exec(s, i + 1)
    } else {
        false
    }
}

fn ver_letter_done_exec(s: &Vec<char>, i: usize) -> (r: bool)
    requires
        i <= s@.len(),
    ensures
        r == ver_letter_done(s@, i as int),
    decreases s@.len() - i, 1int,
{
    if i >= s.len() {
        true
    } else if s[i] == '_' {
        ver_kw_exec(s, i + 1)
    } else {
        false
    }
}

fn ver_kw_exec(s: &Vec<char>, i: usize) -> (r: bool)
    requires
        i <= s@.len(),
    ensures
        r == ver_kw(s@, i as int),
    decreases s@.len() - i, 0int,
{
    let n = s.len();
    if n - i >= 3 && s[i] == 'p' && s[i + 1] == 'r' && s[i + 2] == 'e' {
        ver_suf_digits_exec(s, i + 3)
    } else if n - i >= 4 && s[i] == 'b' && s[i + 1] == 'e' && s[i + 2] == 't' && s[i + 3] == 'a' {
        ver_suf_digits_exec(s, i + 4)
    } else if n - i >= 5 && s[i] == 'a' && s[i + 1] == 'l' && s[i + 2] == 'p' && s[i + 3] == 'h'
        && s[i + 4] == 'a' {
        ver_suf_digits_exec(s, i + 5)
    } else if n - i >= 2 && s[i] == 'r' && s[i + 1] == 'c' {
        ver_suf_digits_exec(s, i + 2)
    } else if n - i >= 1 && s[i] == 'p' {
        ver_suf_digits_exec(s, i + 1)
    } else {
        false
    }
}

fn ver_suf_digits_exec(s: &Vec<char>, i: usize) -> (r: bool)
    requires
        i <= s@.len(),
    ensures
        r == ver_suf_digits(s@, i as int),
    decreases s@.len() - i, 1int,
{
    if i >= s.len() {
        true
    } else if is_digit_exec(s[i]) {
        ver_suf_digits_exec(s, i + 1)
    } else if s[i] == '_' {
        ver_kw_exec(s, i + 1)
    } else {
        false
    }
}

fn first_hyphen_exec(s: &Vec<char>, i: usize) -> (r: Option<usize>)
    requires
        i <= s@.len(),
    ensures
        match r {
            Some(q) => first_hyphen(s@, i as int) == q && i <= q < s@.len(),
            None => first_hyphen(s@, i as int) == -1,
        },
    decreases s@.len() - i,
{
    if i >= s.len() {
        None
    } else if s[i] == '-' {
        Some(i)
    } else {
        first_hyphen_exec(s, i + 1)
    }
}

/// Checks that every character of `s` from `i` on is a digit.
fn all_digits_exec(s: &Vec<char>, i: usize) -> (r: bool)
    requires
        i <= s@.len(),
    ensures
        r == forall|j: int| i <= j < s@.len() ==> is_digit(s@[j]),
    decreases s@.len() - i,
{
    if i >= s.len() {
        true
    } else if is_digit_exec(s[i]) {
        all_digits_exec(s, i + 1)
    } else {
        false
    }
}

fn rev_ok_exec(s: &Vec<char>) -> (r: bool)
    ensures
        r == rev_ok(s@),
{
    if s.len() < 3 {
        return false;
    }
    if s[0] != '-' || s[1] != 'r' {
        return false;
    }
    all_digits_exec(s, 2)
}

fn tail_ok_exec(tail: &Vec<char>) -> (r: bool)
    ensures
        r == tail_ok(tail@),
{
    let vl: usize = match first_hyphen_exec(tail, 0) {
        Some(q) => q,
        None => tail.len(),
    };
    let ver = crate::text::slice_of(tail, 0, vl);
    if !ver_start_exec(&ver, 0) {
        return false;
    }
    if vl == tail.len() {
        true
    } else {
        let rev = crate::text::slice_of(tail, vl, tail.len());
        proof {
            assert(rev@ =~= tail@.skip(tail_ver_len(tail@)));
        }
        rev_ok_exec(&rev)
    }
}

fn pn_ok_exec(s: &Vec<char>, lo: usize, hi: usize) -> (r: bool)
    requires
        lo <= hi <= s@.len(),
    ensures
        r == pn_ok(s@.subrange(lo as int, hi as int)),
{
    let ghost pn = s@.subrange(lo as int, hi as int);
    if hi == lo {
        return false;
    }
    if !is_pn_first_exec(s[lo]) {
        proof {
            assert(pn[0] == s@[lo as int]);
        }
        return false;
    }
    let mut i: usize = lo + 1;
    while i < hi
        invariant
            lo + 1 <= i <= hi <= s@.len(),
            pn == s@.subrange(lo as int, hi as int),
            forall|j: int| lo + 1 <= j < i ==> is_pn_char(s@[j]),
        decreases hi - i,
    {
        if !is_pn_char_exec(s[i]) {
            proof {
                assert(pn[i - lo] == s@[i as int]);
            }
            return false;
        }
        i = i + 1;
    }
    proof {
        assert(forall|j: int| 1 <= j < pn.len() ==> pn[j] == s@[lo + j] && is_pn_char(s@[lo + j]));
        assert(pn[0] == s@[lo as int]);
    }
    true
}

fn sep_ok_exec(core: &Vec<char>, p: usize) -> (r: bool)
    requires
        p < core@.len(),
    ensures
        r == sep_ok(core@, p as int),
{
    let n = core.len();
    if p < 1 || core[p] != '-' {
        return false;
    }
    if !pn_ok_exec(core, 0, p) {
        proof {
            assert(core@.subrange(0, core@.len() as int) =~= core@);
        }
        return false;
    }
    let tail = crate::text::slice_of(core, p + 1, n);
    proof {
        assert(tail@ =~= core@.skip(p + 1));
    }
    tail_ok_exec(&tail)
}

fn first_sep_exec(core: &Vec<char>, p: usize) -> (r: Option<usize>)
    requires
        p <= core@.len(),
    ensures
        match r {
            Some(q) => first_sep(core@, p as int) == q && p <= q < core@.len(),
            None => first_sep(core@, p as int) == -1,
        },
    decreases core@.len() - p,
{
    if p >= core.len() {
        None
    } else if sep_ok_exec(core, p) {
        Some(p)
    } else {
        first_sep_exec(core, p + 1)
    }
}

fn last_slash_exec(v: &Vec<char>, hi: usize) -> (r: Option<usize>)
    requires
        hi <= v@.len(),
    ensures
        match r {
            Some(k) => last_slash(v@.subrange(0, hi as int)) == k && k < hi,
            None => last_slash(v@.subrange(0, hi as int)) == -1,
        },
    decreases hi,
{
    let ghost s = v@.subrange(0, hi as int);
    if hi == 0 {
        None
    } else {
        proof {
            assert(s.drop_last() =~= v@.subrange(0, hi - 1));
            assert(s[s.len() - 1] == v@[hi - 1]);
        }
        if v[hi - 1] == '/' {
            Some(hi - 1)
        } else {
            last_slash_exec(v, hi - 1)
        }
    }
}

/// Decodes `path` into its package name and dotted version, when its final
/// component has the shape `<name>-<version>[-r<digits>].ebuild`.
pub fn split_pkgver(path: &str) -> (r: Option<(String, String)>)
    ensures
        match r {
            Some(pv) => decode_spec(path@) == Some((pv.0@, pv.1@)),
            None => decode_spec(path@) is None,
        },
{
    let v = crate::text::chars_of(path);
    let n: usize = v.len();
    proof {
        assert(v@.subrange(0, n as int) =~= path@);
    }
    let k: usize = match last_slash_exec(&v, n) {
        Some(k) => k,
        None => {
            return None;
        },
    };
    let ghost base = path@.skip(k + 1);
    let bv = crate::text::slice_of(&v, k + 1, n);
    proof {
        assert(bv@ =~= base);
    }
    if bv.len() < 7 {
        return None;
    }
    let bn = bv.len();
    if !(bv[bn - 7] == '.' && bv[bn - 6] == 'e' && bv[bn - 5] == 'b' && bv[bn - 4] == 'u' && bv[bn
        - 3] == 'i' && bv[bn - 2] == 'l' && bv[bn - 1] == 'd') {
        return None;
    }
    let core = crate::text::slice_of(&bv, 0, bn - 7);
    proof {
        assert(core@ =~= base.subrange(0, base.len() - 7));
    }
    if core.len() == 0 {
        return None;
    }
    let p: usize = match first_sep_exec(&core, 1) {
        Some(p) => p,
        None => {
            return None;
        },
    };
    let ghost tail = core@.skip(p + 1);
    let tv = crate::text::slice_of(&core, p + 1, core.len());
    proof {
        assert(tv@ =~= tail);
    }
    let vl: usize = match first_hyphen_exec(&tv, 0) {
        Some(q) => q,
        None => tv.len(),
    };
    // positions within the original path: core starts at k + 1, the tail at
    // k + 1 + p + 1
    let name = String::from_str(path.substring_char(k + 1, k + 1 + p));
    let ver_lo: usize = k + 1 + p + 1;
    let ver = String::from_str(path.substring_char(ver_lo, ver_lo + vl));
    proof {
        assert(name@ =~= core@.subrange(0, p as int));
        assert(ver@ =~= tail.subrange(0, tail_ver_len(tail)));
    }
    Some((name, ver))
}

} // verus!
