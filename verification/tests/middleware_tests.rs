use parody::request::RequestLogItem;
use parody::web::parse_url;
use parody::CacheMiddleware;

fn request(url: &str, method: &str) -> RequestLogItem {
    RequestLogItem {
        url: parse_url(url).expect("test URL parses"),
        method: method.to_string(),
    }
}

#[test]
fn cache_middleware_builds_a_store_per_request() {
    let mut middleware = CacheMiddleware::new();
    middleware.set_root_dir("cache/localhost".to_string());
    let storage = middleware
        .storage_for(&request("http://localhost/", "GET"))
        .expect("storage for request");
    assert_eq!(storage.get_config().get_root_dir(), "cache/localhost");
    assert_eq!(storage.status_file_name(), "GET.status");
    let segments: Vec<&str> = storage
        .relative_segments()
        .iter()
        .filter(|s| !s.is_empty())
        .map(|s| s.as_str())
        .collect();
    assert_eq!(segments, vec!["localhost"]);
}

#[test]
fn cache_middleware_with_root_dir_is_the_builder_form() {
    let middleware = CacheMiddleware::new().with_root_dir("elsewhere".to_string());
    let storage = middleware
        .storage_for(&request("http://localhost/x", "GET"))
        .unwrap();
    assert_eq!(storage.get_config().get_root_dir(), "elsewhere");
}
