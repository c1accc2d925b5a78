use parody::web::parse_url;
use parody::ForwardMiddleware;

#[test]
fn forward_rewrites_for_the_configured_upstream() {
    // upstream https://example.com:8443/api, inbound GET /v1/users?x=1
    let upstream = parse_url("https://example.com:8443/api").unwrap();
    let forwarder = ForwardMiddleware::new(upstream).unwrap();
    let inbound = parse_url("http://127.0.0.1:3000/v1/users?x=1").unwrap();
    let headers = vec![
        ("Host".to_string(), "127.0.0.1:3000".to_string()),
        ("accept".to_string(), "*/*".to_string()),
    ];
    let built = forwarder.build_upstream_request("GET".to_string(), &inbound, &headers);

    assert_eq!(built.method, "GET");
    assert_eq!(built.url.scheme, "https");
    assert_eq!(built.url.host, Some("example.com".to_string()));
    assert_eq!(built.url.port, Some(8443));
    assert_eq!(
        built.url.path_segments,
        vec!["api".to_string(), "v1".to_string(), "users".to_string()]
    );
    assert_eq!(
        built.url.query_pairs,
        vec![("x".to_string(), "1".to_string())]
    );
    assert_eq!(
        built.headers,
        vec![
            ("accept".to_string(), "*/*".to_string()),
            ("host".to_string(), "example.com:8443".to_string()),
        ]
    );
}

#[test]
fn forward_replaces_request_scheme_with_upstream_scheme() {
    let forwarder = ForwardMiddleware::new(parse_url("https://example.com").unwrap()).unwrap();
    let inbound = parse_url("http://127.0.0.1/").unwrap();
    let built = forwarder.build_upstream_request("GET".to_string(), &inbound, &vec![]);
    assert_eq!(inbound.scheme, "http");
    assert_eq!(built.url.scheme, "https");
}

#[test]
fn forward_drops_every_host_header_whatever_its_case() {
    let forwarder = ForwardMiddleware::new(parse_url("http://upstream.test").unwrap()).unwrap();
    let inbound = parse_url("http://127.0.0.1/").unwrap();
    let headers = vec![
        ("HOST".to_string(), "a".to_string()),
        ("x-one".to_string(), "1".to_string()),
        ("host".to_string(), "b".to_string()),
        ("Host".to_string(), "c".to_string()),
        ("hostile".to_string(), "stays".to_string()),
    ];
    let built = forwarder.build_upstream_request("GET".to_string(), &inbound, &headers);
    assert_eq!(
        built.headers,
        vec![
            ("x-one".to_string(), "1".to_string()),
            ("hostile".to_string(), "stays".to_string()),
            ("host".to_string(), "upstream.test".to_string()),
        ]
    );
}

#[test]
fn forward_keeps_query_and_body_untouched_by_the_path_prefix() {
    // an upstream URL with no path of its own: "/" contributes no prefix
    let forwarder = ForwardMiddleware::new(parse_url("http://upstream.test").unwrap()).unwrap();
    let inbound = parse_url("http://127.0.0.1/a/b?k=v&k2=").unwrap();
    let built = forwarder.build_upstream_request("POST".to_string(), &inbound, &vec![]);
    assert_eq!(built.url.path_segments, vec!["a".to_string(), "b".to_string()]);
    assert_eq!(
        built.url.query_pairs,
        vec![
            ("k".to_string(), "v".to_string()),
            ("k2".to_string(), "".to_string()),
        ]
    );
}

#[test]
fn forward_refuses_an_upstream_without_a_host() {
    let r = ForwardMiddleware::new(parse_url("file:///tmp/data").unwrap());
    match r {
        Err(parody::Error::Common(parody::CommonError::ConfigError)) => {}
        other => panic!("Unexpected outcome: {:?}", other.map(|_| ())),
    };
}
