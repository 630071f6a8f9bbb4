//! Tests of the extraction pipeline: declaration capture, the eclass
//! matcher, specifier parsing, and filename decoding.
use overlay_audit::decl::extract_crates_decl;
use overlay_audit::decl::uses_cargo_eclass_exec;
use overlay_audit::depspec::parse_depspec;
use overlay_audit::manifest::parse_manifest;
use overlay_audit::manifest::ManifestOutcome;
use overlay_audit::pkgver::split_pkgver;
use overlay_audit::text::chars_of;

fn example_ebuild() -> String {
    [
        "# Copyright 1999-2020 Gentoo Authors",
        "# Distributed under the terms of the GNU General Public License v2",
        "",
        "EAPI=7",
        "",
        "CRATES=\"",
        "adler32-1.0.4",
        "arrayref-0.3.6",
        "xattr-0.2.2",
        "\"",
        "",
        "inherit cargo",
        "",
        "DESCRIPTION=\"An example package\"",
        "SRC_URI=\"$(cargo_crate_uris ${CRATES})\"",
        "",
    ]
    .join("\n")
}

#[test]
fn crates() {
    let test = example_ebuild();
    let v = chars_of(&test);
    assert_eq!(
        "\nadler32-1.0.4\narrayref-0.3.6\nxattr-0.2.2\n",
        extract_crates_decl(&test, &v).expect("matches")
    );
}

#[test]
fn depspec() {
    let capt = parse_depspec("clap-clap32-clap-3.0.0-beta.2").expect("matches");
    assert_eq!("clap-clap32-clap", capt.name);
    assert_eq!("3.0.0-beta.2", capt.ver);
}

#[test]
fn eclass() {
    let test = example_ebuild();
    assert!(uses_cargo_eclass_exec(&chars_of(&test)));
    assert!(!uses_cargo_eclass_exec(&chars_of("SRC_URI=\"x\"\nDEPEND=\"\"\n")));
}

#[test]
fn ebuild() {
    assert_eq!(
        Some(("gitui".to_string(), "0.12.0".to_string())),
        split_pkgver("dev-vcs/gitui/gitui-0.12.0.ebuild")
    )
}

#[test]
fn ebuild_revision_and_suffixes() {
    assert_eq!(
        Some(("bar".to_string(), "1.2.3".to_string())),
        split_pkgver("app-foo/bar/bar-1.2.3-r2.ebuild")
    );
    assert_eq!(
        Some(("x".to_string(), "1.2.3_beta2".to_string())),
        split_pkgver("dev-libs/x/x-1.2.3_beta2.ebuild")
    );
    assert_eq!(
        Some(("a-1".to_string(), "2.3.4".to_string())),
        split_pkgver("cat/p/a-1-2.3.4.ebuild")
    );
    assert_eq!(
        Some(("libloading".to_string(), "0.7.0_p20210512".to_string())),
        split_pkgver("dev-libs/libloading/libloading-0.7.0_p20210512.ebuild")
    );
}

#[test]
fn ebuild_rejects() {
    assert_eq!(None, split_pkgver("gitui-0.12.0.ebuild"));
    assert_eq!(None, split_pkgver("dev-vcs/gitui/gitui.ebuild"));
    assert_eq!(None, split_pkgver("dev-vcs/gitui/gitui-0.12.0.txt"));
    assert_eq!(None, split_pkgver(""));
}

#[test]
fn depspec_rejects() {
    assert!(parse_depspec("nonsense").is_none());
    assert!(parse_depspec("name-1.2").is_none());
    assert!(parse_depspec("-1.2.3").is_none());
    assert!(parse_depspec("").is_none());
}

#[test]
fn declaration_yields_specs_in_order() {
    let content = "\nEAPI=7\n\nCRATES=\"adler32-1.0.4 arrayref-0.3.6 xattr-0.2.2\"\n\ninherit cargo\n\nSRC_URI=\"$(cargo_crate_uris ${CRATES})\"\n";
    match parse_manifest("dev-util/example/example-1.0.0.ebuild", content) {
        ManifestOutcome::Declared(deps) => {
            assert_eq!(3, deps.len());
            assert_eq!("adler32", deps[0].name);
            assert_eq!("1.0.4", deps[0].ver);
            assert_eq!("arrayref", deps[1].name);
            assert_eq!("0.3.6", deps[1].ver);
            assert_eq!("xattr", deps[2].name);
            assert_eq!("0.2.2", deps[2].ver);
        }
        _ => panic!("expected a declaration"),
    }
}

#[test]
fn placeholders_are_substituted() {
    let content = "\nCRATES=\"${P} foo-${PV} ${PN}-bar-1.0.0\"\n\nSRC_URI=\"$(cargo_crate_uris ${CRATES})\"\n";
    match parse_manifest("dev-vcs/gitui/gitui-0.12.0.ebuild", content) {
        ManifestOutcome::Declared(deps) => {
            assert_eq!(3, deps.len());
            assert_eq!("gitui", deps[0].name);
            assert_eq!("0.12.0", deps[0].ver);
            assert_eq!("foo", deps[1].name);
            assert_eq!("0.12.0", deps[1].ver);
            assert_eq!("gitui-bar", deps[2].name);
            assert_eq!("1.0.0", deps[2].ver);
        }
        _ => panic!("expected a declaration"),
    }
}

#[test]
fn undecodable_path_parses_raw_text() {
    let content = "\nCRATES=\"adler32-1.0.4 ${PN}-2.0.0\"\nSRC_URI=\"$(cargo_crate_uris ${CRATES})\"\n";
    match parse_manifest("strange-name.txt", content) {
        ManifestOutcome::Declared(deps) => {
            // the ${PN} token keeps its placeholder and is dropped as
            // malformed; only the literal specifier survives
            assert_eq!(1, deps.len());
            assert_eq!("adler32", deps[0].name);
        }
        _ => panic!("expected a declaration"),
    }
}

#[test]
fn malformed_tokens_are_dropped() {
    let content = "\nCRATES=\"adler32-1.0.4 nonsense xattr-0.2.2\"\nSRC_URI=\"$(cargo_crate_uris $CRATES)\"\n";
    match parse_manifest("a/b/b-1.0.0.ebuild", content) {
        ManifestOutcome::Declared(deps) => {
            assert_eq!(2, deps.len());
            assert_eq!("adler32", deps[0].name);
            assert_eq!("xattr", deps[1].name);
        }
        _ => panic!("expected a declaration"),
    }
}

#[test]
fn manifest_without_macro_is_skipped() {
    let content = "\nCRATES=\"adler32-1.0.4\"\ninherit cargo\n";
    assert!(matches!(
        parse_manifest("a/b/b-1.0.0.ebuild", content),
        ManifestOutcome::NotUsing
    ));
}

#[test]
fn manifest_without_declaration_warns() {
    let content = "\ninherit cargo\nSRC_URI=\"$(cargo_crate_uris ${CRATES})\"\n";
    assert!(matches!(
        parse_manifest("a/b/b-1.0.0.ebuild", content),
        ManifestOutcome::NoDeclaration
    ));
}

#[test]
fn nonstandard_usage_still_parses() {
    let content = "\nCRATES=\"adler32-1.0.4\"\nSRC_URI=\"$(cargo_crate_uris ${CRATES} extra)\"\n";
    match parse_manifest("a/b/b-1.0.0.ebuild", content) {
        ManifestOutcome::Declared(deps) => assert_eq!(1, deps.len()),
        _ => panic!("expected a declaration"),
    }
}

#[test]
fn declaration_with_comment_and_multiline_text() {
    let content = "\n  CRATES=\"a-1.0.0\nb-2.0.0\"  # generated\nSRC_URI=\"$(cargo_crate_uris ${CRATES})\"\n";
    let v = chars_of(content);
    assert_eq!(Some("a-1.0.0\nb-2.0.0".to_string()), extract_crates_decl(content, &v));
}

#[test]
fn first_line_declaration_needs_preceding_newline() {
    let content = "CRATES=\"a-1.0.0\"\nSRC_URI=\"$(cargo_crate_uris ${CRATES})\"\n";
    let v = chars_of(content);
    assert_eq!(None, extract_crates_decl(content, &v));
}
