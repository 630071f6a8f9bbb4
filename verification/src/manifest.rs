//! The per-manifest extraction pipeline: classify how the manifest invokes
//! the substitution macro, extract its declaration text, substitute the
//! name/version placeholders decoded from its path, and parse the resulting
//! whitespace-separated tokens into dependency specifiers.
use vstd::prelude::*;

use crate::DepInfo;
use crate::decl::MacroUsage;

verus! {

/// The declaration text after placeholder substitution: when the manifest
/// path decodes to a name and version, `${P}`, `${PV}` and `${PN}` are
/// replaced (in that order) by name-version, version and name; otherwise the
/// text is kept as it is.
pub open spec fn substituted_spec(text: Seq<char>, path: Seq<char>) -> Seq<char> {
    match crate::pkgver::decode_spec(path) {
        Some(pv) => {
            let p_val = pv.0 + "-"@ + pv.1;
            crate::text::replace_spec(
                crate::text::replace_spec(
                    crate::text::replace_spec(text, "${P}"@, p_val),
                    "${PV}"@,
                    pv.1,
                ),
                "${PN}"@,
                pv.0,
            )
        },
        None => text,
    }
}

/// The (name, version) pairs parsed from a token list, in order, dropping
/// tokens that do not have the specifier shape.
pub open spec fn parsed_specs(toks: Seq<Seq<char>>) -> Seq<(Seq<char>, Seq<char>)>
    decreases toks.len(),
{
    if toks.len() == 0 {
        Seq::empty()
    } else {
        parsed_specs(toks.drop_last()) + match crate::depspec::depspec_spec(toks.last()) {
            Some(nv) => seq![nv],
            None => Seq::empty(),
        }
    }
}

/// The dependency specifiers a manifest declares: its substituted
/// declaration text, split on whitespace, each token parsed.
pub open spec fn manifest_specs(content: Seq<char>, path: Seq<char>) -> Seq<
    (Seq<char>, Seq<char>),
> {
    parsed_specs(
        crate::text::tokens_spec(
            substituted_spec(crate::decl::crates_capture(content).unwrap(), path),
        ),
    )
}

/// The outcome of scanning one candidate manifest.
pub enum ManifestOutcome {
    /// The declaration was found; its parsed specifiers, possibly none.
    Declared(Vec<DepInfo>),
    /// The substitution macro is never referenced: skipped silently.
    NotUsing,
    /// The macro is referenced but no declaration was found: skipped with a
    /// warning.
    NoDeclaration,
}

/// Parses the token list into specifiers.
fn parse_tokens(toks: &Vec<String>) -> (deps: Vec<DepInfo>)
    ensures
        deps@.map_values(|d: DepInfo| d.view_pair()) == parsed_specs(
            toks@.map_values(|t: String| t@),
        ),
{
    let mut deps: Vec<DepInfo> = Vec::new();
    let mut i: usize = 0;
    proof {
        assert(toks@.map_values(|t: String| t@).subrange(0, 0) =~= Seq::<Seq<char>>::empty());
        assert(deps@.map_values(|d: DepInfo| d.view_pair()) =~= Seq::<
            (Seq<char>, Seq<char>),
        >::empty());
    }
    while i < toks.len()
        invariant
            i <= toks@.len(),
            deps@.map_values(|d: DepInfo| d.view_pair()) == parsed_specs(
                toks@.map_values(|t: String| t@).subrange(0, i as int),
            ),
        decreases toks@.len() - i,
    {
        let ghost mapped = toks@.map_values(|t: String| t@);
        proof {
            assert(mapped.subrange(0, i + 1).drop_last() =~= mapped.subrange(0, i as int));
            assert(mapped.subrange(0, i + 1).last() == toks@[i as int]@);
        }
        match crate::depspec::parse_depspec(toks[i].as_str()) {
            Some(d) => {
                deps.push(d);
                proof {
                    assert(deps@.map_values(|x: DepInfo| x.view_pair()) =~= deps@.map_values(
                        |x: DepInfo| x.view_pair(),
                    ).subrange(0, deps@.len() - 1).push(d.view_pair()));
                    assert(parsed_specs(mapped.subrange(0, i + 1)) =~= parsed_specs(
                        mapped.subrange(0, i as int),
                    ).push(d.view_pair()));
                }
            },
            None => {
                proof {
                    assert(parsed_specs(mapped.subrange(0, i + 1)) =~= parsed_specs(
                        mapped.subrange(0, i as int),
                    ));
                }
            },
        }
        i = i + 1;
    }
    proof {
        assert(toks@.map_values(|t: String| t@).subrange(0, toks@.len() as int) =~= toks@
            .map_values(|t: String| t@));
    }
    deps
}

/// Substitutes the placeholders decoded from `path` into `text`.
fn substitute(text: &str, path: &str) -> (out: String)
    ensures
        out@ == substituted_spec(text@, path@),
{
    proof {
        reveal_strlit("${P}");
        reveal_strlit("${PV}");
        reveal_strlit("${PN}");
    }
    match crate::pkgver::split_pkgver(path) {
        Some(pv) => {
            let (pn, pvv) = pv;
            let mut p_val = pn.clone();
            p_val.append("-");
            p_val.append(pvv.as_str());
            let r1 = crate::text::replace_all(text, "${P}", p_val.as_str());
            let r2 = crate::text::replace_all(r1.as_str(), "${PV}", pvv.as_str());
            crate::text::replace_all(r2.as_str(), "${PN}", pn.as_str())
        },
        None => String::from_str(text),
    }
}

/// Scans one candidate manifest: classifies its macro usage, extracts and
/// substitutes its declaration text, and parses the specifiers.
pub fn parse_manifest(path: &str, content: &str) -> (r: ManifestOutcome)
    ensures
        match r {
            ManifestOutcome::Declared(deps) => !(crate::decl::macro_usage_spec(content@)
                is NotUsed) && crate::decl::crates_capture(content@) is Some && deps@
                .map_values(|d: DepInfo| d.view_pair()) == manifest_specs(content@, path@),
            ManifestOutcome::NotUsing => crate::decl::macro_usage_spec(content@) is NotUsed,
            ManifestOutcome::NoDeclaration => !(crate::decl::macro_usage_spec(content@)
                is NotUsed) && crate::decl::crates_capture(content@) is None,
        },
{
    let v = crate::text::chars_of(content);
    match crate::decl::macro_usage(&v) {
        MacroUsage::NotUsed => {
            return ManifestOutcome::NotUsing;
        },
        _ => {},
    }
    let text = match crate::decl::extract_crates_decl(content, &v) {
        Some(t) => t,
        None => {
            return ManifestOutcome::NoDeclaration;
        },
    };
    let subst = substitute(text.as_str(), path);
    let toks = crate::text::split_ws(subst.as_str());
    let deps = parse_tokens(&toks);
    ManifestOutcome::Declared(deps)
}

} // verus!
