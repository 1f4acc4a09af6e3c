use bdg::version::{
    classify_calendar, classify_version, semver_info, CalverParts, SemverParts, VersionOptions,
};

fn opts(allow_yy: bool) -> VersionOptions {
    VersionOptions { allow_yy_calver: allow_yy, year_min: 2000, year_max: 2199 }
}

fn parts(year: u32, month: u32, day: Option<u32>, micro: Option<u32>) -> Option<CalverParts> {
    Some(CalverParts { year, month, day, micro })
}

#[test]
fn year_month_is_a_calendar_version() {
    let info = classify_version("2026.01", &opts(false));
    assert_eq!(info.version_format, "calver");
    assert_eq!(info.calver_scheme.as_deref(), Some("YYYY.MM"));
    assert_eq!(info.calver_parts, parts(2026, 1, None, None));
    assert_eq!(info.raw, "2026.01");
    assert_eq!(info.modifier, None);
    assert!(info.semver_parts.is_none());
}

#[test]
fn two_digit_year_needs_the_switch() {
    let off = classify_version("26.01", &opts(false));
    assert_eq!(off.version_format, "unknown");
    assert!(off.calver_parts.is_none());
    let on = classify_version("26.01", &opts(true));
    assert_eq!(on.version_format, "calver");
    assert_eq!(on.calver_scheme.as_deref(), Some("YY.MM"));
    assert_eq!(on.calver_parts, parts(2026, 1, None, None));
    let micro = classify_version("99.12.0", &opts(true));
    assert_eq!(micro.calver_scheme.as_deref(), Some("YY.MM.MICRO"));
    assert_eq!(micro.calver_parts, parts(2099, 12, None, Some(0)));
}

#[test]
fn two_digit_year_ignores_bounds() {
    let options = VersionOptions { allow_yy_calver: true, year_min: 2027, year_max: 2030 };
    let info = classify_version("26.01", &options);
    assert_eq!(info.version_format, "calver");
    assert_eq!(info.calver_parts, parts(2026, 1, None, None));
}

#[test]
fn every_scheme_with_its_parts() {
    let cases = [
        ("2026.12.4294967295", "YYYY.MM.MICRO", parts(2026, 12, None, Some(4294967295))),
        ("2000-01-31", "YYYY-MM-DD", parts(2000, 1, Some(31), None)),
        ("21991231", "YYYYMMDD", parts(2199, 12, Some(31), None)),
        ("20260129.007", "YYYYMMDD.MICRO", parts(2026, 1, Some(29), Some(7))),
    ];
    for (raw, scheme, expected) in cases {
        let info = classify_version(raw, &opts(false));
        assert_eq!(info.version_format, "calver", "{}", raw);
        assert_eq!(info.calver_scheme.as_deref(), Some(scheme), "{}", raw);
        assert_eq!(info.calver_parts, expected, "{}", raw);
    }
}

#[test]
fn out_of_range_fields_are_no_calendar_version() {
    for raw in [
        "1999.01", "2200.01", "2026.0", "2026.13", "2026.01.4294967296", "2026-01-00",
        "2026-01-32", "20261301", "20260100", "2026.01.", "2026..01", "+026.01", "2026.1.2.3",
        "20260129.1.2", "2026 .01",
    ] {
        assert!(classify_calendar(raw, &opts(true)).is_none(), "{}", raw);
    }
}

#[test]
fn modifier_is_split_off() {
    let dash = classify_version(" 2026.01-beta ", &opts(false));
    assert_eq!(dash.version_format, "calver");
    assert_eq!(dash.raw, "2026.01");
    assert_eq!(dash.modifier.as_deref(), Some("beta"));
    let tail = classify_version("2026.01b", &opts(false));
    assert_eq!(tail.version_format, "calver");
    assert_eq!(tail.raw, "2026.01");
    assert_eq!(tail.modifier.as_deref(), Some("b"));
    let date = classify_version("2026-01-29-rc", &opts(false));
    assert_eq!(date.calver_scheme.as_deref(), Some("YYYY-MM-DD"));
    assert_eq!(date.modifier.as_deref(), Some("rc"));
    let digits_last = classify_version("2026.01rc1", &opts(false));
    assert_eq!(digits_last.version_format, "unknown");
    assert_eq!(digits_last.raw, "2026.01rc1");
}

#[test]
fn plus_or_dot_with_dash_goes_to_semver() {
    let dotted = classify_version("2026.01-1", &opts(false));
    assert_eq!(dotted.version_format, "unknown");
    let build = classify_version("2026.1.2+5", &opts(false));
    assert_eq!(build.version_format, "semver");
    let core_with_dash = classify_version("2026.1.2-3", &opts(false));
    assert_eq!(core_with_dash.version_format, "semver");
}

#[test]
fn semver_parts_are_reported() {
    let info = classify_version(" 1.2.3-alpha.1+build.5 ", &opts(false));
    assert_eq!(info.version_format, "semver");
    assert_eq!(info.raw, "1.2.3-alpha.1+build.5");
    assert_eq!(
        info.semver_parts,
        Some(SemverParts {
            major: 1,
            minor: 2,
            patch: 3,
            pre: Some("alpha.1".to_string()),
            build: Some("build.5".to_string()),
        })
    );
    let plain = classify_version("10.20.30", &opts(true));
    assert_eq!(
        plain.semver_parts,
        Some(SemverParts { major: 10, minor: 20, patch: 30, pre: None, build: None })
    );
    assert_eq!(plain.calver_scheme, None);
    assert_eq!(plain.modifier, None);
}

#[test]
fn unknown_has_no_parts() {
    for raw in ["", "   ", "v1.2.3", "1.2", "01.2.3", "latest", "1.2.3.4"] {
        let info = classify_version(raw, &opts(false));
        assert_eq!(info.version_format, "unknown", "{:?}", raw);
        assert_eq!(info.raw, raw.trim());
        assert!(info.semver_parts.is_none());
        assert!(info.calver_parts.is_none());
        assert!(info.calver_scheme.is_none());
        assert!(info.modifier.is_none());
    }
}

#[test]
fn semver_info_maps_every_answer() {
    let none = semver_info("x", None);
    assert_eq!(none.version_format, "unknown");
    assert_eq!(none.raw, "x");
    let some = semver_info("x", Some((1, 0, 7, String::new(), "b".to_string())));
    assert_eq!(some.version_format, "semver");
    assert_eq!(
        some.semver_parts,
        Some(SemverParts { major: 1, minor: 0, patch: 7, pre: None, build: Some("b".to_string()) })
    );
}
