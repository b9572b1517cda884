use release_notes::facade::{app_info, start, NotesError};
use release_notes::github::{auth_header_value, releases_page_url, search_query, search_url};

#[test]
fn release_listing_url_carries_page_and_size() {
    assert_eq!(
        releases_page_url("octo", "hello", 1),
        "https://api.github.com/repos/octo/hello/releases?per_page=30&page=1"
    );
    assert_eq!(
        releases_page_url("octo", "hello", 37),
        "https://api.github.com/repos/octo/hello/releases?per_page=30&page=37"
    );
}

#[test]
fn search_query_spells_the_filters() {
    assert_eq!(
        search_query("octo", "hello", "2024-06-05T12:00:00Z"),
        "repo:octo/hello is:pr is:merged merged:>=2024-06-05T12:00:00Z"
    );
}

#[test]
fn search_url_percent_encodes_the_query() {
    let url = search_url("octo", "hello", "2024-06-05T12:00:00Z");
    let expected = format!(
        "https://api.github.com/search/issues?q={}&per_page=10&sort=created&order=desc",
        urlencoding::encode("repo:octo/hello is:pr is:merged merged:>=2024-06-05T12:00:00Z")
    );
    assert_eq!(url, expected);
    assert!(url.contains("%3A"));
    assert!(url.contains("%2F"));
    assert!(!url.contains(" "));
}

#[test]
fn bearer_header_exactly_when_token_configured() {
    assert_eq!(
        auth_header_value(&Some("abc123".to_string())),
        Some("Bearer abc123".to_string())
    );
    assert_eq!(auth_header_value(&None), None);
}

#[test]
fn error_messages_are_descriptive() {
    assert_eq!(
        NotesError::MissingOwner.message(),
        "GITHUB_OWNER environment variable not set"
    );
    assert_eq!(
        NotesError::MissingRepo.message(),
        "GITHUB_REPO environment variable not set"
    );
    assert_eq!(
        NotesError::BadCurrentVersion.message(),
        "Failed to parse current version"
    );
    assert_eq!(
        NotesError::ClientBuild { detail: "no tls".to_string() }.message(),
        "Failed to build HTTP client: no tls"
    );
    assert_eq!(
        NotesError::Network { page: 3, detail: "timed out".to_string() }.message(),
        "Failed to fetch releases page 3: timed out"
    );
    assert_eq!(
        NotesError::HttpStatus { status: "403 Forbidden".to_string() }.message(),
        "GitHub API returned error: 403 Forbidden"
    );
    assert_eq!(
        NotesError::Decode { detail: "expected a list".to_string() }.message(),
        "Failed to parse releases JSON: expected a list"
    );
}

#[test]
fn start_checks_configuration_in_order() {
    let owner = Some("octo".to_string());
    let repo = Some("hello".to_string());
    match start(&None, &repo, "1.0.0") {
        Err(e) => assert_eq!(e.message(), "GITHUB_OWNER environment variable not set"),
        Ok(_) => panic!("owner was absent"),
    }
    match start(&owner, &None, "1.0.0") {
        Err(e) => assert_eq!(e.message(), "GITHUB_REPO environment variable not set"),
        Ok(_) => panic!("repo was absent"),
    }
    match start(&owner, &repo, "three.point.one") {
        Err(e) => assert_eq!(e.message(), "Failed to parse current version"),
        Ok(_) => panic!("version was invalid"),
    }
    match start(&owner, &repo, "1.0.0") {
        Err(_) => panic!("configuration was complete"),
        Ok(f) => {
            assert_eq!(f.page(), 1);
            assert!(!f.is_done());
        },
    }
}

#[test]
fn app_info_carries_name_and_version() {
    let info = app_info("demo".to_string(), "0.1.0".to_string());
    assert_eq!(info.name, "demo");
    assert_eq!(info.version, "0.1.0");
}
