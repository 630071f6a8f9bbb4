//! Recognizes manifests that declare third-party dependencies and extracts
//! the quoted text of their `CRATES="..."` declaration.
//!
//! A declaration line is a newline, any number of spaces, `CRATES="`, the
//! quoted text (which may span lines), a closing `"`, optional spaces, and
//! either a line end or a `#` comment running to some later line end. The
//! quoted text ends at the first `"` whose trailer is well formed; earlier
//! candidate quotes whose trailer is not well formed are part of the text.
use vstd::prelude::*;

use crate::text::is_at;

verus! {

/// The inline marker whose presence makes a manifest a candidate.
pub open spec fn uris_marker() -> Seq<char> {
    "cargo_crate_uris "@
}

/// The opening of a declaration after the leading spaces.
pub open spec fn decl_open() -> Seq<char> {
    "CRATES=\""@
}

/// The first position at `i` or later that does not hold a space.
pub open spec fn spaces_end(s: Seq<char>, i: int) -> int
    decreases s.len() - i,
{
    if i < s.len() && s[i] == ' ' {
        spaces_end(s, i + 1)
    } else {
        i
    }
}

/// The first position at `i` or later that holds neither space nor tab.
pub open spec fn blank_end(s: Seq<char>, i: int) -> int
    decreases s.len() - i,
{
    if i < s.len() && (s[i] == ' ' || s[i] == '\t') {
        blank_end(s, i + 1)
    } else {
        i
    }
}

/// A newline occurs at `z` or later.
pub open spec fn nl_from(s: Seq<char>, z: int) -> bool
    decreases s.len() - z,
{
    if z >= s.len() {
        false
    } else if s[z] == '\n' {
        true
    } else {
        nl_from(s, z + 1)
    }
}

/// `cargo` occurs at `m` or later on the current line (scanning stops at a
/// newline).
pub open spec fn cargo_in_line(s: Seq<char>, m: int) -> bool
    decreases s.len() - m,
{
    if m >= s.len() {
        false
    } else if s[m] == '\n' {
        false
    } else if is_at(s, "cargo"@, m) {
        true
    } else {
        cargo_in_line(s, m + 1)
    }
}

/// The line opened by the newline at `i` starts with optional blanks and
/// `inherit`, and mentions `cargo` later on the same line.
pub open spec fn inherit_at(s: Seq<char>, i: int) -> bool {
    let j = blank_end(s, i + 1);
    is_at(s, "inherit"@, j) && cargo_in_line(s, j + 7)
}

/// Scan for an `inherit ... cargo` line opened at `i` or later.
pub open spec fn eclass_from(s: Seq<char>, i: int) -> bool
    decreases s.len() - i,
{
    if i >= s.len() {
        false
    } else if s[i] == '\n' && inherit_at(s, i) {
        true
    } else {
        eclass_from(s, i + 1)
    }
}

/// The content inherits the third-party build helper: some line starts with
/// `inherit` (after blanks) and mentions `cargo`.
pub open spec fn uses_cargo_eclass(s: Seq<char>) -> bool {
    eclass_from(s, 0)
}

/// The quote at `e` validly closes a declaration: after it come optional
/// spaces and then a line end, or a `#` comment with some later line end.
pub open spec fn close_ok(s: Seq<char>, e: int) -> bool {
    let w = spaces_end(s, e + 1);
    w < s.len() && (s[w] == '\n' || (s[w] == '#' && nl_from(s, w + 1)))
}

/// The first valid closing quote at `b` or later, or -1.
pub open spec fn first_close(s: Seq<char>, b: int) -> int
    decreases s.len() - b,
{
    if b >= s.len() {
        -1
    } else if s[b] == '"' && close_ok(s, b) {
        b
    } else {
        first_close(s, b + 1)
    }
}

/// The newline at `i` opens a complete declaration.
pub open spec fn decl_at(s: Seq<char>, i: int) -> bool {
    let j = spaces_end(s, i + 1);
    s[i] == '\n' && is_at(s, decl_open(), j) && first_close(s, j + 8) != -1
}

/// The first position at `i` or later whose newline opens a complete
/// declaration, or -1.
pub open spec fn first_decl(s: Seq<char>, i: int) -> int
    decreases s.len() - i,
{
    if i >= s.len() {
        -1
    } else if decl_at(s, i) {
        i
    } else {
        first_decl(s, i + 1)
    }
}

/// The quoted text of the first complete declaration of `s`, if any.
pub open spec fn crates_capture(s: Seq<char>) -> Option<Seq<char>> {
    let i = first_decl(s, 0);
    if i == -1 {
        None
    } else {
        let b = spaces_end(s, i + 1) + 8;
        Some(s.subrange(b, first_close(s, b)))
    }
}

fn spaces_end_exec(v: &Vec<char>, i: usize) -> (r: usize)
    requires
        i <= v@.len(),
    ensures
        r == spaces_end(v@, i as int),
        i <= r <= v@.len(),
    decreases v@.len() - i,
{
    if i < v.len() && v[i] == ' ' {
        spaces_end_exec(v, i + 1)
    } else {
        i
    }
}

fn blank_end_exec(v: &Vec<char>, i: usize) -> (r: usize)
    requires
        i <= v@.len(),
    ensures
        r == blank_end(v@, i as int),
        i <= r <= v@.len(),
    decreases v@.len() - i,
{
    if i < v.len() && (v[i] == ' ' || v[i] == '\t') {
        blank_end_exec(v, i + 1)
    } else {
        i
    }
}

fn nl_from_exec(v: &Vec<char>, z: usize) -> (r: bool)
    requires
        z <= v@.len(),
    ensures
        r == nl_from(v@, z as int),
    decreases v@.len() - z,
{
    if z >= v.len() {
        false
    } else if v[z] == '\n' {
        true
    } else {
        nl_from_exec(v, z + 1)
    }
}

fn cargo_in_line_exec(v: &Vec<char>, cargo: &Vec<char>, m: usize) -> (r: bool)
    requires
        m <= v@.len(),
        cargo@ == "cargo"@,
    ensures
        r == cargo_in_line(v@, m as int),
    decreases v@.len() - m,
{
    if m >= v.len() {
        false
    } else if v[m] == '\n' {
        false
    } else if crate::text::has_at(v, cargo, m) {
        true
    } else {
        cargo_in_line_exec(v, cargo, m + 1)
    }
}

fn eclass_from_exec(v: &Vec<char>, inherit: &Vec<char>, cargo: &Vec<char>, i: usize) -> (r: bool)
    requires
        i <= v@.len(),
        inherit@ == "inherit"@,
        cargo@ == "cargo"@,
    ensures
        r == eclass_from(v@, i as int),
    decreases v@.len() - i,
{
    if i >= v.len() {
        false
    } else {
        if v[i] == '\n' {
            let j = blank_end_exec(v, i + 1);
            proof {
                reveal_strlit("inherit");
            }
            if crate::text::has_at(v, inherit, j) && cargo_in_line_exec(v, cargo, j + 7) {
                return true;
            }
        }
        eclass_from_exec(v, inherit, cargo, i + 1)
    }
}

/// Decides whether the content inherits the third-party build helper.
pub fn uses_cargo_eclass_exec(v: &Vec<char>) -> (r: bool)
    ensures
        r == uses_cargo_eclass(v@),
{
    let inherit = crate::text::chars_of("inherit");
    let cargo = crate::text::chars_of("cargo");
    eclass_from_exec(v, &inherit, &cargo, 0)
}

fn close_ok_exec(v: &Vec<char>, e: usize) -> (r: bool)
    requires
        e < v@.len(),
    ensures
        r == close_ok(v@, e as int),
{
    let n = v.len();
    let w = spaces_end_exec(v, e + 1);
    if w >= v.len() {
        false
    } else if v[w] == '\n' {
        true
    } else if v[w] == '#' {
        nl_from_exec(v, w + 1)
    } else {
        false
    }
}

fn first_close_exec(v: &Vec<char>, b: usize) -> (r: Option<usize>)
    requires
        b <= v@.len(),
    ensures
        match r {
            Some(e) => first_close(v@, b as int) == e && b <= e < v@.len(),
            None => first_close(v@, b as int) == -1,
        },
    decreases v@.len() - b,
{
    if b >= v.len() {
        None
    } else if v[b] == '"' && close_ok_exec(v, b) {
        Some(b)
    } else {
        first_close_exec(v, b + 1)
    }
}

fn decl_at_exec(v: &Vec<char>, open: &Vec<char>, i: usize) -> (r: bool)
    requires
        i < v@.len(),
        open@ == decl_open(),
    ensures
        r == decl_at(v@, i as int),
{
    let n = v.len();
    if v[i] != '\n' {
        return false;
    }
    let j = spaces_end_exec(v, i + 1);
    if !crate::text::has_at(v, open, j) {
        return false;
    }
    proof {
        reveal_strlit("CRATES=\"");
        assert(j + 8 <= n);
    }
    first_close_exec(v, j + 8).is_some()
}

fn first_decl_exec(v: &Vec<char>, open: &Vec<char>, i: usize) -> (r: Option<usize>)
    requires
        i <= v@.len(),
        open@ == decl_open(),
    ensures
        match r {
            Some(d) => first_decl(v@, i as int) == d && i <= d < v@.len() && decl_at(
                v@,
                d as int,
            ),
            None => first_decl(v@, i as int) == -1,
        },
    decreases v@.len() - i,
{
    if i >= v.len() {
        None
    } else if decl_at_exec(v, open, i) {
        Some(i)
    } else {
        first_decl_exec(v, open, i + 1)
    }
}

/// Extracts the quoted text of the first complete `CRATES="..."`
/// declaration of `content`, if there is one.
pub fn extract_crates_decl(content: &str, v: &Vec<char>) -> (r: Option<String>)
    requires
        v@ == content@,
    ensures
        match r {
            Some(t) => crates_capture(content@) == Some(t@),
            None => crates_capture(content@) is None,
        },
{
    let n = v.len();
    let open = crate::text::chars_of("CRATES=\"");
    let i: usize = match first_decl_exec(v, &open, 0) {
        Some(i) => i,
        None => {
            return None;
        },
    };
    proof {
        assert(decl_at(v@, i as int));
        reveal_strlit("CRATES=\"");
    }
    let j = spaces_end_exec(v, i + 1);
    let b: usize = j + 8;
    let e: usize = match first_close_exec(v, b) {
        Some(e) => e,
        None => {
            proof {
                assert(false);
            }
            0
        },
    };
    let t = String::from_str(content.substring_char(b, e));
    proof {
        assert(t@ =~= content@.subrange(b as int, e as int));
    }
    Some(t)
}

/// Decides whether a blob is a candidate manifest: its file name ends with
/// the manifest suffix and its content either holds the inline marker or
/// inherits the third-party build helper.
pub fn is_candidate(name: &str, content: &str, v: &Vec<char>) -> (r: bool)
    requires
        v@ == content@,
    ensures
        r == (crate::text::finishes_with(name@, ".ebuild"@) && (crate::text::occurs_in(
            content@,
            uris_marker(),
        ) || uses_cargo_eclass(content@))),
{
    let nv = crate::text::chars_of(name);
    let suffix = crate::text::chars_of(".ebuild");
    proof {
        reveal_strlit(".ebuild");
    }
    if nv.len() < 7 {
        proof {
            assert(!crate::text::finishes_with(name@, ".ebuild"@));
        }
        return false;
    }
    if !crate::text::has_at(&nv, &suffix, nv.len() - 7) {
        return false;
    }
    let marker = crate::text::chars_of("cargo_crate_uris ");
    proof {
        reveal_strlit("cargo_crate_uris ");
    }
    if crate::text::occurs_in_exec(v, &marker) {
        return true;
    }
    uses_cargo_eclass_exec(v)
}

/// How a manifest invokes the substitution macro.
pub enum MacroUsage {
    /// The macro is invoked on the declaration variable verbatim.
    Standard,
    /// The macro is referenced, but not in the standard form.
    NonStandard,
    /// The macro is never referenced.
    NotUsed,
}

/// The standard macro invocations.
pub open spec fn usage_braced() -> Seq<char> {
    "$(cargo_crate_uris ${CRATES})"@
}

/// The standard macro invocation without braces.
pub open spec fn usage_plain() -> Seq<char> {
    "$(cargo_crate_uris $CRATES)"@
}

/// The bare macro name.
pub open spec fn usage_name() -> Seq<char> {
    "cargo_crate_uris"@
}

/// Classification of how `content` invokes the substitution macro.
pub open spec fn macro_usage_spec(s: Seq<char>) -> MacroUsage {
    if crate::text::occurs_in(s, usage_braced()) || crate::text::occurs_in(s, usage_plain()) {
        MacroUsage::Standard
    } else if crate::text::occurs_in(s, usage_name()) {
        MacroUsage::NonStandard
    } else {
        MacroUsage::NotUsed
    }
}

/// Classifies how `content` invokes the substitution macro.
pub fn macro_usage(v: &Vec<char>) -> (r: MacroUsage)
    ensures
        r == macro_usage_spec(v@),
{
    let braced = crate::text::chars_of("$(cargo_crate_uris ${CRATES})");
    let plain = crate::text::chars_of("$(cargo_crate_uris $CRATES)");
    let bare = crate::text::chars_of("cargo_crate_uris");
    proof {
        reveal_strlit("$(cargo_crate_uris ${CRATES})");
        reveal_strlit("$(cargo_crate_uris $CRATES)");
        reveal_strlit("cargo_crate_uris");
    }
    if crate::text::occurs_in_exec(v, &braced) || crate::text::occurs_in_exec(v, &plain) {
        MacroUsage::Standard
    } else if crate::text::occurs_in_exec(v, &bare) {
        MacroUsage::NonStandard
    } else {
        MacroUsage::NotUsed
    }
}

} // verus!
