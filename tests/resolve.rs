use cargo_lts::catalog::{
    is_date_selector, is_prefetch_request, is_selector_argument, is_version_selector,
    toolchain_version, version_selects, CutoffSelection, Release, ResolveError, VersionTable,
};

fn pair(r: Result<CutoffSelection, ResolveError>) -> Result<(String, String), ResolveError> {
    r.map(|c| (c.cutoff_date, c.resolved_version))
}

fn ok(d: &str, v: &str) -> Result<(String, String), ResolveError> {
    Ok((d.to_string(), v.to_string()))
}

#[test]
fn later_date_never_gives_earlier_cutoff() {
    let t = VersionTable::builtin();
    let a = pair(t.resolve_selector("2016-02-01"));
    let b = pair(t.resolve_selector("2016-09-01"));
    assert_eq!(a, ok("2016-02-01", "1.7.0"));
    assert_eq!(b, ok("2016-09-01", "1.12.0"));
    let (da, _) = a.unwrap();
    let (db, _) = b.unwrap();
    assert!(da <= db);
}

#[test]
fn every_listed_version_resolves_to_its_own_entry() {
    let t = VersionTable::builtin();
    assert_eq!(t.releases.len(), 53);
    for r in t.releases.iter() {
        let got = pair(t.resolve_selector(&r.version));
        assert_eq!(got, ok(&r.date, &r.version));
    }
}

#[test]
fn builtin_dates_ascend() {
    let t = VersionTable::builtin();
    for w in t.releases.windows(2) {
        assert!(w[0].date <= w[1].date);
    }
    assert_eq!(t.releases[0].date, "2015-05-15");
    assert_eq!(t.releases[52].version, "1.38.0");
}

#[test]
fn two_component_version_selects_its_patch_release() {
    let t = VersionTable::builtin();
    assert_eq!(pair(t.resolve_selector("1.20")), ok("2017-08-31", "1.20.0"));
    assert_eq!(pair(t.resolve_selector("1.2")), ok("2015-08-07", "1.2.0"));
    assert_eq!(pair(t.resolve_selector("1.12")), ok("2016-09-29", "1.12.0"));
    assert_eq!(pair(t.resolve_selector("1.12.1")), ok("2016-10-20", "1.12.1"));
}

#[test]
fn date_past_catalog_gives_placeholder() {
    let t = VersionTable::builtin();
    assert_eq!(pair(t.resolve_selector("2099-01-01")), ok("2099-01-01", "<date>"));
}

#[test]
fn date_between_releases_hints_next_release() {
    let t = VersionTable::builtin();
    assert_eq!(pair(t.resolve_selector("2017-09-01")), ok("2017-09-01", "1.21.0"));
    assert_eq!(pair(t.resolve_selector("1999-01-01")), ok("1999-01-01", "1.0.0"));
}

#[test]
fn same_day_releases_pick_the_earliest() {
    let t = VersionTable::builtin();
    assert_eq!(pair(t.resolve_selector("2017-11-22")), ok("2017-11-22", "1.22.0"));
    let e = t.lookup_by_date_floor("2017-11-22").unwrap();
    assert_eq!(e.version, "1.22.0");
}

#[test]
fn unknown_version_is_an_error() {
    let t = VersionTable::builtin();
    assert_eq!(pair(t.resolve_selector("1.99")), Err(ResolveError::UnrecognizedVersion));
    assert_eq!(pair(t.resolve_selector("1.2.0.1")), Err(ResolveError::UnrecognizedVersion));
}

#[test]
fn other_shapes_are_invalid() {
    let t = VersionTable::builtin();
    assert_eq!(pair(t.resolve_selector("stable")), Err(ResolveError::InvalidSelector));
    assert_eq!(pair(t.resolve_selector("")), Err(ResolveError::InvalidSelector));
    assert_eq!(pair(t.resolve_selector("20-1")), Err(ResolveError::InvalidSelector));
}

#[test]
fn installed_toolchain_resolves_by_exact_version() {
    let t = VersionTable::builtin();
    let r = t.resolve_installed("rustc 1.38.0 (625451e37 2019-09-23)\n");
    assert_eq!(pair(r), ok("2019-09-20", "1.38.0"));
    let r = t.resolve_installed("rustc 1.30.0-beta.3 (123 2018-10-01)");
    assert_eq!(pair(r), ok("2018-10-25", "1.30.0"));
}

#[test]
fn installed_toolchain_outside_catalog_fails() {
    let t = VersionTable::builtin();
    let r = t.resolve_installed("rustc 1.40.0 (73528e339 2019-12-16)");
    assert_eq!(pair(r), Err(ResolveError::UnresolvedToolchain));
    assert_eq!(pair(t.resolve_installed("rustc")), Err(ResolveError::UnresolvedToolchain));
    assert_eq!(pair(t.resolve_installed("")), Err(ResolveError::UnresolvedToolchain));
    let r = t.resolve_installed("rustc 1.38 (x)");
    assert_eq!(pair(r), Err(ResolveError::UnresolvedToolchain));
}

#[test]
fn toolchain_token_is_second_word_before_dash() {
    assert_eq!(toolchain_version("  rustc 1.37.0-nightly (abc)  ").as_deref(), Some("1.37.0"));
    assert_eq!(toolchain_version("rustc 1.36.0").as_deref(), Some("1.36.0"));
    assert_eq!(toolchain_version("rustc"), None);
}

#[test]
fn lookups_by_version_and_date() {
    let t = VersionTable::builtin();
    assert_eq!(t.lookup_by_version("1.15.1").as_deref(), Some("2017-02-09"));
    assert_eq!(t.lookup_by_version("1.15"), None);
    let e = t.lookup_by_version_prefix("1.15").unwrap();
    assert_eq!((e.date.as_str(), e.version.as_str()), ("2017-02-02", "1.15.0"));
    assert!(t.lookup_by_version_prefix("1.5.1").is_none());
    let e = t.lookup_by_date_floor("2015-05-15").unwrap();
    assert_eq!(e.version, "1.0.0");
    assert!(t.lookup_by_date_floor("2019-09-21").is_none());
}

#[test]
fn selector_shapes() {
    assert!(is_date_selector("2018-01-01"));
    assert!(is_date_selector("1999-12"));
    assert!(!is_date_selector("2018"));
    assert!(!is_date_selector("201x-01-01"));
    assert!(is_version_selector("1.2"));
    assert!(!is_version_selector("12"));
}

#[test]
fn command_line_arguments() {
    assert!(!is_selector_argument("lts"));
    assert!(!is_selector_argument("--verbose"));
    assert!(is_selector_argument("1.20"));
    assert!(is_selector_argument("ltsx"));
    assert!(is_prefetch_request("prefetch"));
    assert!(!is_prefetch_request("prefetch2"));
}

#[test]
fn builtin_catalog_is_well_formed() {
    assert!(VersionTable::builtin().is_well_formed());
}

#[test]
fn ill_formed_catalogs_are_detected() {
    let mk = |rows: &[(&str, &str)]| VersionTable {
        releases: rows
            .iter()
            .map(|(d, v)| Release { date: d.to_string(), version: v.to_string() })
            .collect(),
    };
    assert!(mk(&[("2015-01-01", "1.0.0"), ("2015-02-01", "1.1.0")]).is_well_formed());
    assert!(!mk(&[("2015-02-01", "1.0.0"), ("2015-01-01", "1.1.0")]).is_well_formed());
    assert!(!mk(&[("2015-01-01", "1.0.0"), ("2015-02-01", "1.0.0")]).is_well_formed());
    assert!(!mk(&[("2015-01-01", "1.0.0.1"), ("2015-02-01", "1.0.0")]).is_well_formed());
    assert!(!mk(&[("2015-01-01", "100")]).is_well_formed());
    assert!(!mk(&[("2015-01-01", "2015-1.0")]).is_well_formed());
}

#[test]
fn version_selection_by_dotted_prefix() {
    assert!(version_selects("1.20.0", "1.20"));
    assert!(version_selects("1.20", "1.20"));
    assert!(!version_selects("1.2.0", "1.20"));
    assert!(!version_selects("1.200.0", "1.20"));
}
