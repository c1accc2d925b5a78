use parody::config::Config;
use parody::key::encode_key;
use parody::web::parse_url;

fn storage_dir(url: &str, config: &Config) -> Vec<String> {
    let parts = parse_url(url).expect("test URL parses");
    encode_key(&parts, config).expect("test URL encodes")
}

/// The path components a key resolves to: empty segments name no directory.
fn components(key: &[String]) -> Vec<&str> {
    key.iter().filter(|s| !s.is_empty()).map(|s| s.as_str()).collect()
}

#[test]
fn test_get_response_storage_dir_when_request_has_path_should_return_target_path() {
    assert_eq!(
        components(&storage_dir("file:///test/location", &Config::default())),
        vec![":NO-HOST", "test", "location"]
    );
}

#[test]
fn test_get_response_storage_dir_when_request_has_query_should_not_include_them_in_target_path() {
    assert_eq!(
        components(&storage_dir("file:///test/location", &Config::default())),
        vec![":NO-HOST", "test", "location"]
    );
}

#[test]
fn test_get_response_storage_dir_when_request_has_query_should_include_query_from_config() {
    assert_eq!(
        components(&storage_dir(
            "https://example.com/test string/unicode-α?query&query=&query-arg=value",
            &Config::default().with_query_path("query")
        )),
        vec!["example.com", "test string", "unicode-α", ":PARODY-QUERY", "query", "query"]
    );
}

#[test]
fn test_get_response_storage_dir_when_request_has_host_should_return_target_path_with_host() {
    assert_eq!(
        components(&storage_dir("https://example.com", &Config::default())),
        vec!["example.com"]
    );
}

#[test]
fn test_get_response_storage_dir_all_features() {
    assert_eq!(
        components(&storage_dir(
            "https://example.com/test string/unicode-α?query&query=&query-arg=value",
            &Config::default()
        )),
        vec![
            "example.com",
            "test string",
            "unicode-α",
            ":PARODY-QUERY",
            "query",
            "query",
            "query-arg=value"
        ]
    );
}

#[test]
fn storage_dir_without_host_in_path_starts_at_the_path() {
    assert_eq!(
        components(&storage_dir(
            "https://example.com/a/b",
            &Config::default().with_host_in_path(false)
        )),
        vec!["a", "b"]
    );
}

#[test]
fn storage_dir_decodes_percent_escapes_in_path_segments() {
    assert_eq!(
        components(&storage_dir("https://example.com/test%20string", &Config::default())),
        vec!["example.com", "test string"]
    );
}

#[test]
fn storage_dir_keeps_decoded_slash_encoded_in_one_segment() {
    assert_eq!(
        components(&storage_dir("https://example.com/a%2Fb", &Config::default())),
        vec!["example.com", "a%2Fb"]
    );
}

#[test]
fn storage_dir_empty_query_value_gives_name_only_segment() {
    assert_eq!(
        components(&storage_dir("https://example.com/p?flag=", &Config::default())),
        vec!["example.com", "p", ":PARODY-QUERY", "flag"]
    );
}

#[test]
fn storage_dir_sorts_query_pairs_by_name_then_value() {
    assert_eq!(
        components(&storage_dir(
            "https://example.com/p?b=2&a=9&b=1&a=10",
            &Config::default()
        )),
        vec!["example.com", "p", ":PARODY-QUERY", "a=10", "a=9", "b=1", "b=2"]
    );
}

#[test]
fn storage_dir_ignores_unselected_query_parameters() {
    let config = Config::default().with_no_query_path().with_query_path("keep");
    let with_abc = storage_dir("https://example.com/p?keep=1&nonce=abc", &config);
    let with_xyz = storage_dir("https://example.com/p?keep=1&nonce=xyz", &config);
    assert_eq!(with_abc, with_xyz);
    assert_eq!(
        components(&with_abc),
        vec!["example.com", "p", ":PARODY-QUERY", "keep=1"]
    );
}

#[test]
fn storage_dir_query_selectivity_resolves_to_same_entry() {
    let config = Config::default().with_no_query_path().with_query_path("headers");
    let first = storage_dir(
        "https://example.com/status200?headers=Content-Type:application%2Fjson&nonce=abc",
        &config,
    );
    let second = storage_dir(
        "https://example.com/status200?headers=Content-Type:application%2Fjson&nonce=xyz",
        &config,
    );
    assert_eq!(first, second);
    assert_eq!(
        components(&first),
        vec![
            "example.com",
            "status200",
            ":PARODY-QUERY",
            "headers=Content-Type:application%2Fjson"
        ]
    );
}

#[test]
fn storage_dir_rejects_segments_that_decode_to_invalid_utf8() {
    let parts = parse_url("https://example.com/%FF").expect("test URL parses");
    let r = encode_key(&parts, &Config::default());
    assert_eq!(
        r,
        Err(parody::Error::Common(parody::CommonError::EncodingError))
    );
}

#[test]
fn storage_dir_neutralizes_traversal_query_names() {
    // query names are caller-controlled: a pair named `..` must not become
    // a parent-directory component
    let key = storage_dir("http://example.com/?..&..&..", &Config::default());
    assert_eq!(
        components(&key),
        vec!["example.com", ":PARODY-QUERY", "%2E%2E", "%2E%2E", "%2E%2E"]
    );
    let dot = storage_dir("http://example.com/?.", &Config::default());
    assert_eq!(components(&dot), vec!["example.com", ":PARODY-QUERY", "%2E"]);
}

#[test]
fn storage_dir_neutralizes_traversal_path_segments() {
    // the URL parser removes dot segments; a hand-built request must not
    // escape either
    let parts = parody::web::UrlParts {
        scheme: "http".to_string(),
        host: Some("example.com".to_string()),
        host_is_domain: true,
        port: None,
        path_segments: vec!["..".to_string(), ".".to_string(), "data".to_string()],
        query_pairs: vec![],
    };
    let key = encode_key(&parts, &Config::default()).unwrap();
    assert_eq!(
        components(&key),
        vec!["example.com", "%2E%2E", "%2E", "data"]
    );
}

#[test]
fn storage_dir_neutralizes_a_traversal_host() {
    let parts = parody::web::UrlParts {
        scheme: "http".to_string(),
        host: Some("..".to_string()),
        host_is_domain: true,
        port: None,
        path_segments: vec!["data".to_string()],
        query_pairs: vec![],
    };
    let key = encode_key(&parts, &Config::default()).unwrap();
    assert_eq!(components(&key), vec!["%2E%2E", "data"]);
}
