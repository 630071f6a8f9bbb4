//! Tests of source scoring and ordering, the offline skip rules, the
//! post-join gate, the extraction map, cross-referencing and ranking.
use overlay_audit::errors::check_advisory_db;
use overlay_audit::errors::format_chain;
use overlay_audit::errors::post_join_gate;
use overlay_audit::errors::ErrorKind;
use overlay_audit::errors::RunError;
use overlay_audit::extract::ExtractionMap;
use overlay_audit::overlay::Source;
use overlay_audit::overlay::SourceType;
use overlay_audit::rank::rank;
use overlay_audit::status::cross_reference;
use overlay_audit::status::distinct_deps;
use overlay_audit::status::AdvisoryMeta;
use overlay_audit::status::CrateStatus;
use overlay_audit::status::YankIndex;
use overlay_audit::sync::normalize_url;
use overlay_audit::sync::plan_head;
use overlay_audit::sync::plan_open;
use overlay_audit::sync::HeadPlan;
use overlay_audit::sync::OpenAction;
use overlay_audit::sync::plan_overlay_sync;
use overlay_audit::sync::source_score;
use overlay_audit::sync::SyncPlan;
use overlay_audit::text::replace_all;
use overlay_audit::text::split_ws;
use overlay_audit::DepInfo;
use overlay_audit::Ebuild;

fn src(typ: SourceType, url: &str) -> Source {
    Source { typ, url: url.to_string() }
}

fn dep(name: &str, ver: &str) -> DepInfo {
    DepInfo { name: name.to_string(), ver: ver.to_string() }
}

fn ebuild(overlay: &str, path: &str) -> Ebuild {
    Ebuild { overlay: overlay.to_string(), path: path.to_string() }
}

#[test]
fn scores_form_a_total_order() {
    let git = source_score("git://example.org/repo.git");
    let https = source_score("https://example.org/repo.git");
    let alias = source_score("git@example.org:repo.git");
    let ssh = source_score("ssh://example.org/repo.git");
    let gitssh = source_score("git+ssh://example.org/repo.git");
    let other = source_score("rsync://example.org/repo");
    assert!(git < https && https < other && other < alias && alias < ssh);
    assert_eq!(ssh, gitssh);
    assert_eq!(-2, git);
    assert_eq!(-1, https);
    assert_eq!(0, other);
    assert_eq!(1, alias);
    assert_eq!(2, ssh);
}

#[test]
fn ordering_is_stable_within_equal_scores() {
    let sources = vec![
        src(SourceType::Git, "https://one.example/x.git"),
        src(SourceType::Rsync, "rsync://skip.example/x"),
        src(SourceType::Git, "git://two.example/x.git"),
        src(SourceType::Git, "https://three.example/x.git"),
        src(SourceType::Git, "git+ssh://four.example/x.git"),
    ];
    match plan_overlay_sync(&sources, false, true) {
        SyncPlan::Proceed(ordered) => {
            let urls: Vec<&str> = ordered.iter().map(|s| s.url.as_str()).collect();
            assert_eq!(
                vec![
                    "git+ssh://four.example/x.git",
                    "https://one.example/x.git",
                    "https://three.example/x.git",
                    "git://two.example/x.git",
                ],
                urls
            );
        }
        _ => panic!("expected an ordered plan"),
    }
}

#[test]
fn offline_uncloned_overlay_is_skipped() {
    let sources = vec![src(SourceType::Git, "https://one.example/x.git")];
    assert!(matches!(plan_overlay_sync(&sources, true, false), SyncPlan::SkipNotCloned));
    assert!(matches!(plan_overlay_sync(&sources, true, true), SyncPlan::Proceed(_)));
    assert!(matches!(plan_overlay_sync(&sources, false, false), SyncPlan::Proceed(_)));
}

#[test]
fn overlay_without_git_sources_is_skipped() {
    let sources = vec![src(SourceType::Rsync, "rsync://skip.example/x")];
    assert!(matches!(plan_overlay_sync(&sources, false, true), SyncPlan::SkipNoGitSources));
}

#[test]
fn scheme_aliases_are_normalized() {
    assert_eq!("example.org/x.git", normalize_url("git+ssh://example.org/x.git"));
    assert_eq!("example.org/x.git", normalize_url("ssh+git://example.org/x.git"));
    assert_eq!("https://example.org/x.git", normalize_url("https://example.org/x.git"));
}

#[test]
fn empty_advisory_database_is_a_data_integrity_fault() {
    match check_advisory_db(true, 0) {
        Err(e) => assert_eq!(ErrorKind::DataIntegrityError, e.kind),
        Ok(()) => panic!("an empty advisory set must fail"),
    }
    match check_advisory_db(false, 12) {
        Err(e) => assert_eq!(ErrorKind::StalenessError, e.kind),
        Ok(()) => panic!("a stale database must fail"),
    }
    assert!(check_advisory_db(true, 12).is_ok());
}

#[test]
fn gate_checks_in_order() {
    let t = || RunError::new(ErrorKind::TransportError, "fetch failed".to_string());
    let io = || RunError::new(ErrorKind::IOError, "open failed".to_string());
    match post_join_gate(Err(t()), Err(io()), false, 0, Ok(())) {
        Err(e) => assert_eq!(ErrorKind::TransportError, e.kind),
        Ok(()) => panic!("registry failure must be fatal"),
    }
    match post_join_gate(Ok(()), Err(io()), false, 0, Ok(())) {
        Err(e) => assert_eq!(ErrorKind::IOError, e.kind),
        Ok(()) => panic!("advisory sync failure must be fatal"),
    }
    match post_join_gate(Ok(()), Ok(()), true, 0, Ok(())) {
        Err(e) => assert_eq!(ErrorKind::DataIntegrityError, e.kind),
        Ok(()) => panic!("an empty advisory set must be fatal"),
    }
    match post_join_gate(Ok(()), Ok(()), true, 3, Err(io())) {
        Err(e) => assert_eq!(ErrorKind::IOError, e.kind),
        Ok(()) => panic!("a primary overlay failure must be fatal"),
    }
    assert!(post_join_gate(Ok(()), Ok(()), true, 3, Ok(())).is_ok());
}

#[test]
fn chains_render_one_line_per_layer() {
    let e = RunError::new(ErrorKind::IOError, "open failed".to_string())
        .wrap("processing overlay".to_string());
    assert_eq!("\n\tprocessing overlay\n\topen failed", format_chain(&e.chain));
}

#[test]
fn yank_index_keeps_the_latest_record() {
    let mut idx = YankIndex::new();
    idx.record("serde".to_string(), "1.0.0".to_string(), false);
    idx.record("adler32".to_string(), "1.0.4".to_string(), true);
    idx.record("serde".to_string(), "1.0.0".to_string(), true);
    assert_eq!(Some(true), idx.lookup(&"serde".to_string(), &"1.0.0".to_string()));
    assert_eq!(Some(true), idx.lookup(&"adler32".to_string(), &"1.0.4".to_string()));
    assert_eq!(None, idx.lookup(&"serde".to_string(), &"1.0.1".to_string()));
    assert_eq!(None, idx.lookup(&"missing".to_string(), &"1.0.0".to_string()));
}

#[test]
fn extraction_map_inserts_each_key_once() {
    let mut map = ExtractionMap::new();
    assert!(map.insert(ebuild("gentoo", "a/b/b-1.0.0.ebuild"), vec![dep("x", "1.0.0")]));
    assert!(map.insert(ebuild("guru", "a/b/b-1.0.0.ebuild"), vec![]));
    assert!(!map.insert(ebuild("gentoo", "a/b/b-1.0.0.ebuild"), vec![]));
    assert_eq!(2, map.len());
}

fn snapshot() -> (Vec<(Ebuild, Vec<DepInfo>)>, Vec<Vec<AdvisoryMeta>>, YankIndex) {
    let entries = vec![
        (
            ebuild("gentoo", "dev-vcs/gitui/gitui-0.12.0.ebuild"),
            vec![dep("adler32", "1.0.4"), dep("xattr", "0.2.2")],
        ),
        (
            ebuild("guru", "dev-util/tool/tool-1.0.0.ebuild"),
            vec![dep("adler32", "1.0.4")],
        ),
    ];
    let advisories = vec![
        vec![AdvisoryMeta {
            id: "RUSTSEC-2021-0001".to_string(),
            title: "an example advisory".to_string(),
            severity_milli: Some(7500),
        }],
        vec![],
    ];
    let mut yanks = YankIndex::new();
    yanks.record("xattr".to_string(), "0.2.2".to_string(), true);
    (entries, advisories, yanks)
}

fn status_fields(cs: &CrateStatus) -> (String, String, Option<bool>, usize, usize) {
    (
        cs.id.name.clone(),
        cs.id.ver.clone(),
        cs.yanked,
        cs.advisories.len(),
        cs.ebuilds.len(),
    )
}

#[test]
fn cross_reference_deduplicates_and_collects_references() {
    let (entries, advisories, yanks) = snapshot();
    let dd = distinct_deps(&entries);
    assert_eq!(2, dd.len());
    assert_eq!("adler32", dd[0].name);
    assert_eq!("xattr", dd[1].name);
    let out = cross_reference(&entries, &advisories, &yanks);
    assert_eq!(2, out.len());
    assert_eq!(
        ("adler32".to_string(), "1.0.4".to_string(), None, 1, 2),
        status_fields(&out[0])
    );
    assert_eq!("gentoo", out[0].ebuilds[0].overlay);
    assert_eq!("guru", out[0].ebuilds[1].overlay);
    assert_eq!(
        ("xattr".to_string(), "0.2.2".to_string(), Some(true), 0, 1),
        status_fields(&out[1])
    );
}

#[test]
fn cross_reference_is_idempotent() {
    let (entries, advisories, yanks) = snapshot();
    let a = cross_reference(&entries, &advisories, &yanks);
    let b = cross_reference(&entries, &advisories, &yanks);
    assert_eq!(a.len(), b.len());
    for (x, y) in a.iter().zip(b.iter()) {
        assert_eq!(status_fields(x), status_fields(y));
    }
    for i in 0..a.len() {
        for j in 0..a.len() {
            if i != j {
                assert!(!(a[i].id.name == a[j].id.name && a[i].id.ver == a[j].id.ver));
            }
        }
    }
}

#[test]
fn advisories_rank_above_everything() {
    let with_advisory = CrateStatus {
        id: dep("vulnerable", "0.1.0"),
        advisories: vec![AdvisoryMeta {
            id: "RUSTSEC-2021-0002".to_string(),
            title: "example".to_string(),
            severity_milli: None,
        }],
        yanked: Some(false),
        ebuilds: vec![],
    };
    let yanked_popular = CrateStatus {
        id: dep("withdrawn", "2.0.0"),
        advisories: vec![],
        yanked: Some(true),
        ebuilds: vec![
            ebuild("gentoo", "a/a/a-1.0.0.ebuild"),
            ebuild("gentoo", "b/b/b-1.0.0.ebuild"),
        ],
    };
    let unknown = CrateStatus {
        id: dep("obscure", "3.0.0"),
        advisories: vec![],
        yanked: None,
        ebuilds: vec![ebuild("gentoo", "c/c/c-1.0.0.ebuild")],
    };
    let fine = CrateStatus {
        id: dep("fine", "4.0.0"),
        advisories: vec![],
        yanked: Some(false),
        ebuilds: vec![ebuild("gentoo", "d/d/d-1.0.0.ebuild")],
    };
    let primary = "gentoo".to_string();
    let out = rank(vec![fine, unknown, yanked_popular, with_advisory], &primary);
    let names: Vec<&str> = out.iter().map(|cs| cs.id.name.as_str()).collect();
    assert_eq!(vec!["vulnerable", "withdrawn", "obscure", "fine"], names);
}

#[test]
fn severity_and_usage_break_ties() {
    let primary = "gentoo".to_string();
    let low = CrateStatus {
        id: dep("low", "1.0.0"),
        advisories: vec![AdvisoryMeta {
            id: "RUSTSEC-2021-0003".to_string(),
            title: "low severity".to_string(),
            severity_milli: Some(3100),
        }],
        yanked: None,
        ebuilds: vec![ebuild("gentoo", "a/a/a-1.0.0.ebuild")],
    };
    let high = CrateStatus {
        id: dep("high", "1.0.0"),
        advisories: vec![AdvisoryMeta {
            id: "RUSTSEC-2021-0004".to_string(),
            title: "high severity".to_string(),
            severity_milli: Some(9800),
        }],
        yanked: None,
        ebuilds: vec![ebuild("gentoo", "b/b/b-1.0.0.ebuild")],
    };
    let out = rank(vec![low, high], &primary);
    assert_eq!("high", out[0].id.name);
    assert_eq!("low", out[1].id.name);
}

#[test]
fn text_helpers_match_std_behavior() {
    assert_eq!("ba", replace_all("aaa", "aa", "b"));
    assert_eq!("x-y-z", replace_all("x${P}z", "${P}", "-y-"));
    let toks = split_ws("  a \t b\nc ");
    let views: Vec<&str> = toks.iter().map(|t| t.as_str()).collect();
    assert_eq!(vec!["a", "b", "c"], views);
    assert!(split_ws("   ").is_empty());
}

#[test]
fn open_and_head_decisions() {
    assert!(matches!(plan_open(true, true), OpenAction::RemoveAndInit));
    assert!(matches!(plan_open(true, false), OpenAction::OpenExisting));
    assert!(matches!(plan_open(false, false), OpenAction::Init));
    assert!(matches!(plan_head(true, true), HeadPlan::UseLocalHead));
    assert!(matches!(plan_head(true, false), HeadPlan::SkipNoHead));
    assert!(matches!(plan_head(false, true), HeadPlan::TrySources));
    assert!(matches!(plan_head(false, false), HeadPlan::TrySources));
}

#[test]
fn wrapping_keeps_the_kind() {
    let e = RunError::new(ErrorKind::FormatError, "token does not parse".to_string());
    let e = e.wrap("reading registry line".to_string());
    let e = e.wrap("listing crates".to_string());
    assert_eq!(ErrorKind::FormatError, e.kind);
    assert_eq!(
        "\n\tlisting crates\n\treading registry line\n\ttoken does not parse",
        format_chain(&e.chain)
    );
}
