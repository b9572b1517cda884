use release_notes::facade::{begin_assembly, AssemblyStart};
use release_notes::fetch::{Fetcher, ReleaseRecord};
use release_notes::render::Assembler;
use release_notes::version::{strip_tag_prefix, tag_parses};

fn rec(tag: &str, body: Option<&str>, created: &str) -> ReleaseRecord {
    ReleaseRecord {
        tag_name: tag.to_string(),
        body: body.map(|s| s.to_string()),
        created_at: created.to_string(),
    }
}

fn page_of(n: usize, start_patch: u64) -> Vec<ReleaseRecord> {
    let mut v = Vec::new();
    for i in 0..n {
        let tag = format!("1.0.{}", start_patch + i as u64);
        v.push(rec(&tag, Some("notes"), "2024-01-01T00:00:00Z"));
    }
    v
}

#[test]
fn strips_one_leading_v_marker() {
    assert_eq!(strip_tag_prefix("v1.2.3"), "1.2.3");
    assert_eq!(strip_tag_prefix("1.2.3"), "1.2.3");
    assert_eq!(strip_tag_prefix("vv1.2.3"), "v1.2.3");
    assert_eq!(strip_tag_prefix(""), "");
    assert!(tag_parses("v1.2.3"));
    assert!(tag_parses("1.2.3-rc.1"));
    assert!(!tag_parses("vv1.2.3"));
    assert!(!tag_parses("not-a-version"));
}

#[test]
fn rejects_bad_current_version() {
    assert!(Fetcher::new("not-a-version").is_none());
    assert!(Fetcher::new("1.2.3").is_some());
    assert!(Fetcher::new("v1.2.3").is_none());
}

#[test]
fn filters_unparseable_and_older_tags() {
    let mut f = Fetcher::new("1.0.0").unwrap();
    let records = vec![
        rec("v1.2.0", Some("a"), "2024-03-01T00:00:00Z"),
        rec("not-a-version", Some("populated body"), "2024-04-01T00:00:00Z"),
        rec("0.9.0", Some("b"), "2023-01-01T00:00:00Z"),
        rec("2.0.0", Some("c"), "2024-05-01T00:00:00Z"),
        rec("1.0.0", Some("d"), "2024-01-01T00:00:00Z"),
    ];
    f.on_page(records);
    assert!(f.is_done());
    let out = f.finish();
    let tags: Vec<&str> = out.iter().map(|r| r.tag_name.as_str()).collect();
    assert_eq!(tags, vec!["2.0.0", "v1.2.0"]);
}

#[test]
fn sorts_newest_first_across_numeric_fields() {
    let mut f = Fetcher::new("0.5.0").unwrap();
    f.on_page(vec![
        rec("1.9.0", None, "x"),
        rec("1.10.0", None, "x"),
        rec("v2.0.0", None, "x"),
        rec("0.6.1", None, "x"),
    ]);
    let out = f.finish();
    let tags: Vec<&str> = out.iter().map(|r| r.tag_name.as_str()).collect();
    assert_eq!(tags, vec!["v2.0.0", "1.10.0", "1.9.0", "0.6.1"]);
}

#[test]
fn sorts_prereleases_below_the_release() {
    let mut f = Fetcher::new("0.5.0").unwrap();
    f.on_page(vec![
        rec("1.0.0-alpha", None, "x"),
        rec("1.0.0", None, "x"),
        rec("1.0.0-beta", None, "x"),
    ]);
    let out = f.finish();
    let tags: Vec<&str> = out.iter().map(|r| r.tag_name.as_str()).collect();
    assert_eq!(tags, vec!["1.0.0", "1.0.0-beta", "1.0.0-alpha"]);
}

#[test]
fn pagination_ends_on_short_page() {
    let mut f = Fetcher::new("0.0.1").unwrap();
    let mut requests = 0;
    for (size, start) in [(30usize, 0u64), (30, 30), (12, 60)] {
        assert!(!f.is_done());
        assert_eq!(f.page(), requests + 1);
        f.on_page(page_of(size, start));
        requests += 1;
    }
    assert!(f.is_done());
    assert_eq!(requests, 3);
    let out = f.finish();
    assert_eq!(out.len(), 72);
}

#[test]
fn pagination_ends_on_empty_page() {
    let mut f = Fetcher::new("0.0.1").unwrap();
    for (size, start) in [(30usize, 0u64), (30, 30), (30, 60)] {
        assert!(!f.is_done());
        f.on_page(page_of(size, start));
    }
    assert!(!f.is_done());
    assert_eq!(f.page(), 4);
    f.on_page(Vec::new());
    assert!(f.is_done());
    let out = f.finish();
    assert_eq!(out.len(), 90);
}

#[test]
fn empty_result_short_circuits() {
    let mut f = Fetcher::new("3.0.0").unwrap();
    f.on_page(vec![
        rec("1.0.0", Some("old"), "x"),
        rec("nonsense", Some("populated"), "x"),
    ]);
    let out = f.finish();
    assert!(out.is_empty());
    match begin_assembly(out, "o".to_string(), "r".to_string()) {
        AssemblyStart::NoNewReleases(s) => assert_eq!(s, "No new releases available"),
        AssemblyStart::Begin(_) => panic!("expected the short-circuit"),
    }
}

#[test]
fn nonempty_result_begins_assembly() {
    let mut f = Fetcher::new("1.0.0").unwrap();
    f.on_page(vec![rec("2.0.0", Some("body"), "x")]);
    let out = f.finish();
    match begin_assembly(out, "o".to_string(), "r".to_string()) {
        AssemblyStart::NoNewReleases(_) => panic!("expected an assembler"),
        AssemblyStart::Begin(a) => {
            assert_eq!(a.releases.len(), 1);
            assert_eq!(a.idx, 0);
            assert_eq!(a.doc, "");
        },
    }
}

#[test]
fn authored_body_renders_verbatim_under_raw_tag() {
    let releases = vec![rec("v1.2.3", Some("Fixed many things."), "x")];
    let mut a = Assembler::new(releases, "own".to_string(), "rep".to_string());
    assert!(!a.needs_fallback());
    a.step_authored();
    assert!(a.done());
    let doc = a.finish();
    assert_eq!(
        doc,
        "## v1.2.3\n\nFixed many things.\n\n---\n\n\
         *View [latest release](https://github.com/own/rep/releases/latest) on GitHub*\n"
    );
}

#[test]
fn two_releases_render_in_order() {
    let releases = vec![
        rec("2.0.0", Some("Second major."), "x"),
        rec("1.5.0", Some("Minor."), "x"),
    ];
    let mut a = Assembler::new(releases, "o".to_string(), "r".to_string());
    a.step_authored();
    a.step_authored();
    let doc = a.finish();
    assert_eq!(
        doc,
        "## 2.0.0\n\nSecond major.\n\n---\n\n## 1.5.0\n\nMinor.\n\n---\n\n\
         *View [latest release](https://github.com/o/r/releases/latest) on GitHub*\n"
    );
}
