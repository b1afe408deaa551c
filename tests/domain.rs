use openqr::domain::{check_url, filter_domain, matches_list, normalize_list, normalize_url};

#[test]
fn normalize_url_with_scheme() {
    assert_eq!(
        normalize_url("https://example.com").unwrap(),
        "https://example.com"
    );
}

#[test]
fn normalize_url_without_scheme() {
    assert_eq!(normalize_url("example.com").unwrap(), "https://example.com");
}

#[test]
fn normalize_url_http() {
    assert_eq!(
        normalize_url("http://example.com").unwrap(),
        "http://example.com"
    );
}

#[test]
fn check_url_allowed() {
    let result = check_url(
        "https://good.com/path".to_string(),
        vec!["good.com".to_string()],
        vec![],
    );
    assert!(result.is_ok());
    assert_eq!(result.unwrap(), "good.com");
}

#[test]
fn check_url_blocked() {
    let result = check_url(
        "https://evil.com/path".to_string(),
        vec![],
        vec!["evil.com".to_string()],
    );
    assert!(result.is_err());
    assert!(result.unwrap_err().contains("blocked"));
}

#[test]
fn check_url_not_in_allowlist() {
    let result = check_url(
        "https://random.com".to_string(),
        vec!["only-this.com".to_string()],
        vec![],
    );
    assert!(result.is_err());
    assert!(result.unwrap_err().contains("not in your allowlist"));
}

#[test]
fn empty_allowlist_allows_all() {
    let result = check_url("https://anything.com".to_string(), vec![], vec![]);
    assert!(result.is_ok());
}

#[test]
fn blocklist_takes_priority_over_allowlist() {
    let result = check_url(
        "https://evil.com".to_string(),
        vec!["evil.com".to_string()],
        vec!["evil.com".to_string()],
    );
    assert!(result.is_err());
}

#[test]
fn matches_subdomain() {
    assert!(matches_list(
        "sub.example.com",
        "sub.example.com",
        &["example.com".to_string()]
    ));
}

#[test]
fn case_insensitive() {
    let result = check_url(
        "https://GOOD.COM/path".to_string(),
        vec!["good.com".to_string()],
        vec![],
    );
    assert!(result.is_ok());
}

#[test]
fn url_without_scheme_gets_validated() {
    let result = check_url("example.com/page".to_string(), vec![], vec![]);
    assert!(result.is_ok());
    assert_eq!(result.unwrap(), "example.com");
}

#[test]
fn list_entries_are_lower_cased() {
    assert_eq!(
        normalize_list(vec!["GOOD.Com".to_string(), "x".to_string()]),
        vec!["good.com".to_string(), "x".to_string()]
    );
    let result = check_url(
        "https://good.com".to_string(),
        vec!["GOOD.COM".to_string()],
        vec![],
    );
    assert_eq!(result, Ok("good.com".to_string()));
    let result = check_url("https://evil.com".to_string(), vec![], vec!["EVIL".to_string()]);
    assert_eq!(result, Err("Domain 'evil.com' is blocked.".to_string()));
}

#[test]
fn rejection_messages_are_exact() {
    let result = check_url(
        "https://random.com".to_string(),
        vec!["only-this.com".to_string()],
        vec![],
    );
    assert_eq!(
        result,
        Err("Domain 'random.com' is not in your allowlist.".to_string())
    );
}

#[test]
fn unparsable_url_is_invalid() {
    let result = check_url("https://exa mple.com".to_string(), vec![], vec![]);
    assert_eq!(result, Err("Invalid URL format".to_string()));
}

#[test]
fn ip_host_has_no_domain() {
    let result = check_url("https://127.0.0.1/x".to_string(), vec![], vec![]);
    assert_eq!(result, Err("URL has no valid domain".to_string()));
}

#[test]
fn substring_entries_match_longer_domains() {
    let result = check_url("https://notevil.com".to_string(), vec![], vec!["evil.com".to_string()]);
    assert!(result.is_err());
    assert!(!matches_list("a.org", "a.org", &["b.org".to_string()]));
    assert!(!matches_list("a.org", "a.org", &[]));
}

#[test]
fn filter_on_lowercased_parts() {
    let allow = vec!["evil.com".to_string()];
    let block = vec!["evil.com".to_string()];
    assert_eq!(
        filter_domain("evil.com", "evil.com", &allow, &block),
        Err("Domain 'evil.com' is blocked.".to_string())
    );
    assert_eq!(
        filter_domain("fine.org", "fine.org", &[], &block),
        Ok("fine.org".to_string())
    );
    assert_eq!(
        filter_domain("fine.org", "fine.org", &allow, &[]),
        Err("Domain 'fine.org' is not in your allowlist.".to_string())
    );
}
