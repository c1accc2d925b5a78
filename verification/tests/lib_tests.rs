use parody::get_storage_directory;
use parody::request::ParodyRequest;
use parody::request::RequestLog;
use parody::request::RequestLogItem;
use parody::web::parse_url;
use parody::Error;
use parody::UtilError;

#[test]
fn storage_directory_sits_beside_the_given_file() {
    assert_eq!(
        get_storage_directory("https://example.com", "src/lib.rs").unwrap(),
        "src/example.com"
    );
    assert_eq!(
        get_storage_directory("https://example.com", "lib.rs").unwrap(),
        "example.com"
    );
}

#[test]
fn storage_directory_requires_a_host() {
    match get_storage_directory("file:///tmp/x", "src/lib.rs") {
        Err(Error::Util(UtilError::DomainMissing)) => {}
        other => panic!("Unexpected outcome: {:?}", other),
    };
}

#[test]
fn storage_directory_requires_a_domain_not_an_ip() {
    match get_storage_directory("https://127.0.0.1:8443/api", "src/lib.rs") {
        Err(Error::Util(UtilError::DomainMissing)) => {}
        other => panic!("Unexpected outcome: {:?}", other),
    };
    match get_storage_directory("http://[::1]/", "src/lib.rs") {
        Err(Error::Util(UtilError::DomainMissing)) => {}
        other => panic!("Unexpected outcome: {:?}", other),
    };
}

#[test]
fn storage_directory_requires_a_file_with_a_parent() {
    for rootless in ["/", "", "///"] {
        match get_storage_directory("https://example.com", rootless) {
            Err(Error::Util(UtilError::InvalidCurrentFilePath)) => {}
            other => panic!("{:?} gave {:?}", rootless, other),
        };
    }
    // a file directly under the root keeps the root as its parent
    assert_eq!(
        get_storage_directory("https://example.com", "/lib.rs").unwrap(),
        "/example.com"
    );
}

#[test]
fn storage_directory_rejects_an_invalid_upstream_url() {
    match get_storage_directory("not a url", "src/lib.rs") {
        Err(Error::Common(parody::CommonError::ConfigError)) => {}
        other => panic!("Unexpected outcome: {:?}", other),
    };
}

#[test]
fn parse_url_reads_the_parts_the_core_uses() {
    let u = parse_url("https://user@sub.example.com:8443/a/b%20c?x=1&y=%2F#frag").unwrap();
    assert_eq!(u.scheme, "https");
    assert_eq!(u.host, Some("sub.example.com".to_string()));
    assert_eq!(u.port, Some(8443));
    assert_eq!(u.path_segments, vec!["a".to_string(), "b%20c".to_string()]);
    assert_eq!(
        u.query_pairs,
        vec![
            ("x".to_string(), "1".to_string()),
            ("y".to_string(), "/".to_string()),
        ]
    );
}

#[test]
fn parse_url_refuses_what_is_not_a_url() {
    assert!(parse_url("definitely not a url").is_none());
}

#[test]
fn request_log_keeps_requests_in_arrival_order() {
    let mut log = RequestLog::new();
    assert_eq!(log.len(), 0);
    log.append(RequestLogItem {
        url: parse_url("http://localhost/a").unwrap(),
        method: "GET".to_string(),
    });
    log.append(RequestLogItem {
        url: parse_url("http://localhost/b").unwrap(),
        method: "POST".to_string(),
    });
    assert_eq!(log.len(), 2);
    assert_eq!(log.get(0).method, "GET");
    assert_eq!(log.get(1).method, "POST");
    assert_eq!(log.get(1).get_url().path_segments, vec!["b".to_string()]);
    assert_eq!(log.get(0).get_method(), "GET");
}
