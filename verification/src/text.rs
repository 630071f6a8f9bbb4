//! Verified text primitives used by the manifest scanner: substring
//! occurrence, search, replacement of every occurrence of a pattern, and
//! whitespace tokenization. All specifications are stated over `Seq<char>`
//! views of the executable strings.
use vstd::prelude::*;

verus! {

/// The pattern `p` occurs in `s` starting at position `i`.
pub open spec fn is_at(s: Seq<char>, p: Seq<char>, i: int) -> bool {
    0 <= i && i + p.len() <= s.len() && s.subrange(i, i + p.len() as int) == p
}

/// Some occurrence of `p` in `s` starts at `start` or later.
pub open spec fn occurs_from(s: Seq<char>, p: Seq<char>, start: int) -> bool {
    exists|i: int| start <= i && is_at(s, p, i)
}

/// `p` occurs somewhere in `s`.
pub open spec fn occurs_in(s: Seq<char>, p: Seq<char>) -> bool {
    occurs_from(s, p, 0)
}

/// `s` begins with `p`.
pub open spec fn begins_with(s: Seq<char>, p: Seq<char>) -> bool {
    is_at(s, p, 0)
}

/// `s` ends with `p`.
pub open spec fn finishes_with(s: Seq<char>, p: Seq<char>) -> bool {
    p.len() <= s.len() && is_at(s, p, s.len() - p.len())
}

/// Copies the characters of a string slice into a vector, preserving the view.
pub fn chars_of(s: &str) -> (v: Vec<char>)
    ensures
        v@ == s@,
{
    let n: usize = s.unicode_len();
    let mut v: Vec<char> = Vec::new();
    let mut i: usize = 0;
    while i < n
        invariant
            i <= n,
            n == s@.len(),
            v@ == s@.subrange(0, i as int),
        decreases n - i,
    {
        let c = s.get_char(i);
        v.push(c);
        proof {
            assert(v@ =~= s@.subrange(0, i + 1));
        }
        i = i + 1;
    }
    proof {
        assert(v@ =~= s@);
    }
    v
}

/// Decides whether `p` occurs in `v` at position `i` (false when `p` would
/// not fit there).
pub fn has_at(v: &Vec<char>, p: &Vec<char>, i: usize) -> (r: bool)
    ensures
        r == is_at(v@, p@, i as int),
{
    if p.len() > v.len() || i > v.len() - p.len() {
        return false;
    }
    let vlen: usize = v.len();
    let plen: usize = p.len();
    let mut j: usize = 0;
    while j < plen
        invariant
            j <= plen,
            plen == p@.len(),
            vlen == v@.len(),
            i + plen <= vlen,
            forall|k: int| 0 <= k < j ==> v@[i + k] == p@[k],
        decreases plen - j,
    {
        let idx: usize = i + j;
        if v[idx] != p[j] {
            proof {
                assert(v@.subrange(i as int, i + p@.len() as int)[j as int] == v@[i + j]);
            }
            return false;
        }
        j = j + 1;
    }
    proof {
        assert(v@.subrange(i as int, i + p@.len() as int) =~= p@);
    }
    true
}

/// Finds the first occurrence of `p` in `v` at position `from` or later.
pub fn find_from(v: &Vec<char>, p: &Vec<char>, from: usize) -> (r: Option<usize>)
    requires
        p@.len() >= 1,
    ensures
        match r {
            Some(i) => from <= i && is_at(v@, p@, i as int) && forall|j: int|
                from <= j < i ==> !is_at(v@, p@, j),
            None => !occurs_from(v@, p@, from as int),
        },
{
    if p.len() > v.len() {
        return None;
    }
    let vlen: usize = v.len();
    let plen: usize = p.len();
    let last: usize = vlen - plen;
    let mut i: usize = from;
    while i <= last
        invariant
            from <= i,
            vlen == v@.len(),
            plen == p@.len(),
            plen >= 1,
            plen <= vlen,
            last == vlen - plen,
            forall|j: int| from <= j < i ==> !is_at(v@, p@, j),
        decreases last + 1 - i,
    {
        if has_at(v, p, i) {
            return Some(i);
        }
        i = i + 1;
    }
    proof {
        assert(forall|j: int| from <= j ==> !is_at(v@, p@, j)) by {
            assert forall|j: int| from <= j implies !is_at(v@, p@, j) by {
                if j < i {
                } else {
                    assert(j > last);
                }
            }
        }
    }
    None
}

/// Decides whether `p` occurs anywhere in `v`.
pub fn occurs_in_exec(v: &Vec<char>, p: &Vec<char>) -> (r: bool)
    requires
        p@.len() >= 1,
    ensures
        r == occurs_in(v@, p@),
{
    match find_from(v, p, 0) {
        Some(i) => {
            proof {
                assert(0 <= i as int && is_at(v@, p@, i as int));
            }
            true
        },
        None => false,
    }
}

/// Replacement of every occurrence of `p` in `s` by `r`, scanning left to
/// right and never rescanning replaced text. An empty pattern leaves `s`
/// unchanged.
pub open spec fn replace_spec(s: Seq<char>, p: Seq<char>, r: Seq<char>) -> Seq<char>
    decreases s.len(),
{
    if p.len() == 0 || s.len() < p.len() {
        s
    } else if s.subrange(0, p.len() as int) == p {
        r + replace_spec(s.skip(p.len() as int), p, r)
    } else {
        seq![s[0]] + replace_spec(s.skip(1), p, r)
    }
}

/// Replaces every occurrence of `pat` in `s` by `rep`, leftmost first,
/// without rescanning replaced text.
pub fn replace_all(s: &str, pat: &str, rep: &str) -> (out: String)
    requires
        pat@.len() >= 1,
    ensures
        out@ == replace_spec(s@, pat@, rep@),
{
    let v = chars_of(s);
    let p = chars_of(pat);
    let n: usize = v.len();
    let mut out = String::new();
    let mut i: usize = 0;
    proof {
        assert(s@.skip(0) =~= s@);
        assert(out@ + replace_spec(s@, pat@, rep@) =~= replace_spec(s@, pat@, rep@));
    }
    while i < n
        invariant
            v@ == s@,
            p@ == pat@,
            n == v@.len(),
            i <= n,
            p@.len() >= 1,
            replace_spec(s@, pat@, rep@) == out@ + replace_spec(
                s@.skip(i as int),
                pat@,
                rep@,
            ),
        decreases n - i,
    {
        let ghost rest = s@.skip(i as int);
        if has_at(&v, &p, i) {
            proof {
                assert(rest.subrange(0, pat@.len() as int) =~= s@.subrange(
                    i as int,
                    i + pat@.len() as int,
                ));
                assert(rest.skip(pat@.len() as int) =~= s@.skip(i + pat@.len() as int));
                assert(out@ + (rep@ + replace_spec(s@.skip(i + pat@.len() as int), pat@, rep@))
                    =~= (out@ + rep@) + replace_spec(s@.skip(i + pat@.len() as int), pat@, rep@));
            }
            out.append(rep);
            i = i + p.len();
        } else {
            proof {
                if rest.len() >= pat@.len() {
                    assert(rest.subrange(0, pat@.len() as int) =~= s@.subrange(
                        i as int,
                        i + pat@.len() as int,
                    ));
                    assert(rest.subrange(0, pat@.len() as int) != pat@);
                }
                assert(rest.skip(1) =~= s@.skip(i + 1));
                assert(seq![rest[0]] =~= s@.subrange(i as int, i + 1));
                assert(out@ + (s@.subrange(i as int, i + 1) + replace_spec(
                    s@.skip(i + 1),
                    pat@,
                    rep@,
                )) =~= (out@ + s@.subrange(i as int, i + 1)) + replace_spec(
                    s@.skip(i + 1),
                    pat@,
                    rep@,
                ));
                if rest.len() < pat@.len() {
                    assert(replace_spec(rest, pat@, rep@) == rest);
                    assert(replace_spec(s@.skip(i + 1), pat@, rep@) == s@.skip(i + 1));
                    assert(rest =~= s@.subrange(i as int, i + 1) + s@.skip(i + 1));
                }
            }
            let piece = s.substring_char(i, i + 1);
            out.append(piece);
            i = i + 1;
        }
    }
    proof {
        assert(s@.skip(n as int) =~= Seq::<char>::empty());
        assert(replace_spec(Seq::<char>::empty(), pat@, rep@) == Seq::<char>::empty());
        assert(out@ + Seq::<char>::empty() =~= out@);
    }
    out
}

/// Copies the characters of `v` between `lo` and `hi` into a new vector.
pub fn slice_of(v: &Vec<char>, lo: usize, hi: usize) -> (r: Vec<char>)
    requires
        lo <= hi <= v@.len(),
    ensures
        r@ == v@.subrange(lo as int, hi as int),
{
    let mut r: Vec<char> = Vec::new();
    let mut i: usize = lo;
    while i < hi
        invariant
            lo <= i <= hi <= v@.len(),
            r@ == v@.subrange(lo as int, i as int),
        decreases hi - i,
    {
        let c = v[i];
        r.push(c);
        proof {
            assert(r@ =~= v@.subrange(lo as int, i + 1));
        }
        i = i + 1;
    }
    r
}

/// The characters treated as token separators: the ASCII whitespace set.
pub open spec fn is_ws(c: char) -> bool {
    c == ' ' || c == '\t' || c == '\n' || c == '\r' || c == '\u{b}' || c == '\u{c}'
}

/// The whitespace-separated tokens of `s`, given that the characters of
/// `cur` (the token being accumulated) immediately precede `s`.
pub open spec fn tokens_acc(s: Seq<char>, cur: Seq<char>) -> Seq<Seq<char>>
    decreases s.len(),
{
    if s.len() == 0 {
        if cur.len() == 0 {
            Seq::empty()
        } else {
            seq![cur]
        }
    } else if is_ws(s[0]) {
        if cur.len() == 0 {
            tokens_acc(s.skip(1), Seq::empty())
        } else {
            seq![cur] + tokens_acc(s.skip(1), Seq::empty())
        }
    } else {
        tokens_acc(s.skip(1), cur.push(s[0]))
    }
}

/// The whitespace-separated tokens of `s`: maximal runs of non-whitespace
/// characters, in order, with no empty tokens.
pub open spec fn tokens_spec(s: Seq<char>) -> Seq<Seq<char>> {
    tokens_acc(s, Seq::empty())
}

/// Decides whether `c` is a token separator.
pub fn is_ws_exec(c: char) -> (r: bool)
    ensures
        r == is_ws(c),
{
    c == ' ' || c == '\t' || c == '\n' || c == '\r' || c == '\u{b}' || c == '\u{c}'
}

/// Splits `s` into its whitespace-separated tokens.
pub fn split_ws(s: &str) -> (toks: Vec<String>)
    ensures
        toks@.map_values(|t: String| t@) == tokens_spec(s@),
{
    let v = chars_of(s);
    let n: usize = v.len();
    let mut toks: Vec<String> = Vec::new();
    let mut start: usize = 0;
    let mut i: usize = 0;
    proof {
        assert(s@.skip(0) =~= s@);
        assert(s@.subrange(0, 0) =~= Seq::<char>::empty());
        assert(toks@.map_values(|t: String| t@) =~= Seq::<Seq<char>>::empty());
        assert(toks@.map_values(|t: String| t@) + tokens_acc(s@, Seq::empty()) =~= tokens_acc(
            s@,
            Seq::empty(),
        ));
    }
    while i < n
        invariant
            v@ == s@,
            n == v@.len(),
            start <= i <= n,
            forall|k: int| start <= k < i ==> !is_ws(s@[k]),
            tokens_spec(s@) == toks@.map_values(|t: String| t@) + tokens_acc(
                s@.skip(i as int),
                s@.subrange(start as int, i as int),
            ),
        decreases n - i,
    {
        let ghost rest = s@.skip(i as int);
        let ghost cur = s@.subrange(start as int, i as int);
        proof {
            assert(rest.len() > 0);
            assert(rest[0] == s@[i as int]);
            assert(rest.skip(1) =~= s@.skip(i + 1));
        }
        let c = v[i];
        if is_ws_exec(c) {
            if start < i {
                let tok = String::from_str(s.substring_char(start, i));
                toks.push(tok);
                proof {
                    assert(toks@.map_values(|t: String| t@) =~= toks@.map_values(
                        |t: String| t@,
                    ).subrange(0, toks@.len() - 1).push(cur));
                    assert(tokens_acc(rest, cur) == seq![cur] + tokens_acc(
                        rest.skip(1),
                        Seq::empty(),
                    ));
                    assert(toks@.map_values(|t: String| t@).subrange(0, toks@.len() - 1) + (
                    seq![cur] + tokens_acc(rest.skip(1), Seq::empty())) =~= toks@.map_values(
                        |t: String| t@,
                    ) + tokens_acc(rest.skip(1), Seq::empty()));
                    assert(s@.subrange(i + 1, i + 1) =~= Seq::<char>::empty());
                }
            } else {
                proof {
                    assert(cur =~= Seq::<char>::empty());
                    assert(s@.subrange(i + 1, i + 1) =~= Seq::<char>::empty());
                }
            }
            start = i + 1;
        } else {
            proof {
                assert(cur.push(s@[i as int]) =~= s@.subrange(start as int, i + 1));
            }
        }
        i = i + 1;
    }
    let ghost cur = s@.subrange(start as int, i as int);
    proof {
        assert(s@.skip(n as int) =~= Seq::<char>::empty());
    }
    if start < i {
        let tok = String::from_str(s.substring_char(start, n));
        toks.push(tok);
        proof {
            assert(tokens_acc(Seq::<char>::empty(), cur) == seq![cur]);
            assert(toks@.map_values(|t: String| t@) =~= toks@.map_values(
                |t: String| t@,
            ).subrange(0, toks@.len() - 1) + seq![cur]);
        }
    } else {
        proof {
            assert(cur =~= Seq::<char>::empty());
            assert(tokens_acc(Seq::<char>::empty(), Seq::<char>::empty())
                == Seq::<Seq<char>>::empty());
            assert(toks@.map_values(|t: String| t@) + Seq::<Seq<char>>::empty()
                =~= toks@.map_values(|t: String| t@));
        }
    }
    toks
}

} // verus!
