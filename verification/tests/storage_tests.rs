use parody::config::Config;
use parody::error::CommonError;
use parody::error::Error;
use parody::request::RequestLogItem;
use parody::storage::CacheEntry;
use parody::storage::DirectoryStorage;
use parody::web::parse_url;

fn request(url: &str, method: &str) -> RequestLogItem {
    RequestLogItem {
        url: parse_url(url).expect("test URL parses"),
        method: method.to_string(),
    }
}

fn storage(url: &str, method: &str) -> DirectoryStorage {
    DirectoryStorage::new_with_config(&request(url, method), Config::default())
        .expect("storage for test request")
}

#[test]
fn test_storage_new_should_create_storage_for_request() {
    let storage = DirectoryStorage::new(&request("file:///test/location", "GET"));
    assert!(storage.is_ok());
}

#[test]
fn test_save_should_save_request_body_in_body_file() {}

#[test]
fn test_save_should_save_request() {}

#[test]
fn storage_names_entry_files_after_the_method() {
    let s = storage("https://example.com/p", "GET");
    assert_eq!(s.status_file_name(), "GET.status");
    assert_eq!(s.headers_file_name(), "GET.headers.yaml");
    assert_eq!(s.body_file_name(), "GET.body");
}

#[test]
fn storage_get_and_post_share_a_directory_but_not_files() {
    let get = storage("https://example.com/p?x=1", "GET");
    let post = storage("https://example.com/p?x=1", "POST");
    assert_eq!(get.relative_segments(), post.relative_segments());
    assert_ne!(get.status_file_name(), post.status_file_name());
    assert_eq!(post.status_file_name(), "POST.status");
    assert_eq!(post.body_file_name(), "POST.body");
}

#[test]
fn test_load_should_return_exactly_same_result_as_was_saved() {
    let s = storage("https://example.com/", "GET");
    let saved = CacheEntry {
        status: 500,
        headers: vec![
            ("Content-Type".to_string(), "application/json".to_string()),
            ("X-Test-Data".to_string(), "1234567890".to_string()),
        ],
        body: "{\"lorem\": \"ipsum\"}".as_bytes().to_vec(),
    };
    let writes = s.store_plan(&saved).expect("Cannot save request to storage");
    assert_eq!(writes.len(), 3);
    let (body_name, body_bytes) = &writes[0];
    let (headers_name, headers_bytes) = &writes[1];
    let (status_name, status_bytes) = &writes[2];
    assert_eq!(body_name, "GET.body");
    assert_eq!(headers_name, "GET.headers.yaml");
    assert_eq!(status_name, "GET.status");

    let response = s
        .lookup(
            true,
            Some(status_bytes.clone()),
            Some(headers_bytes.clone()),
            Some(body_bytes.clone()),
        )
        .expect("Cannot load response");
    assert_eq!(response.status, 500);
    assert_eq!(
        response.headers,
        vec![
            ("Content-Type".to_string(), "application/json".to_string()),
            ("X-Test-Data".to_string(), "1234567890".to_string()),
        ]
    );
    assert_eq!(response.body, b"{\"lorem\": \"ipsum\"}".to_vec());
}

#[test]
fn test_load_when_response_cached_should_return_response() {
    // a preseeded entry, written by hand in the on-disk format
    let s = storage(
        "https://example.com/status200?headers=Content-Type:application%2Fjson",
        "GET",
    );
    let status_file = b"200\n".to_vec();
    let headers_file = b"[[\"content-type\", \"application/json\"]]".to_vec();
    let body_file = b"{\"lorem\": \"ipsum\"}".to_vec();

    let response = s
        .lookup(true, Some(status_file), Some(headers_file), Some(body_file))
        .unwrap();

    assert_eq!(response.status, 200);
    assert_eq!(
        response.headers,
        vec![("content-type".to_string(), "application/json".to_string())]
    );
    assert_eq!(response.body, b"{\"lorem\": \"ipsum\"}".to_vec());
}

#[test]
fn test_load_when_response_not_cached_should_return_cache_miss() {
    let s = storage("https://example.com/", "GET");
    let error = s.lookup(false, None, None, None).expect_err("Load didn't exit with an error");
    match error {
        Error::CacheMiss => {}
        error => panic!("Unexpected error: {:?}", error),
    };
}

#[test]
fn test_load_when_there_is_no_status_file_should_return_cache_miss() {
    let s = storage("https://example.com/failures/missing-status/?query=value", "GET");
    // the directory and the other two files exist; the status file is absent
    match s.lookup(
        true,
        None,
        Some(b"[[\"content-type\", \"application/json\"]]".to_vec()),
        Some(b"stale body".to_vec()),
    ) {
        Err(Error::CacheMiss) => {}
        _ => panic!("load didn't exit with CacheMiss"),
    };
}

#[test]
fn lookup_with_malformed_status_reports_the_corrupt_entry() {
    let s = storage("https://example.com/", "GET");
    let r = s.lookup(true, Some(b"hello\n".to_vec()), None, None);
    match r {
        Err(Error::Common(CommonError::MalformedStatus)) => {}
        other => panic!("Unexpected outcome: {:?}", other),
    };
}

#[test]
fn lookup_rejects_statuses_outside_the_http_range() {
    let s = storage("https://example.com/", "GET");
    for bad in ["99\n", "600\n", "\n", "20x\n", "-200\n"] {
        let r = s.lookup(true, Some(bad.as_bytes().to_vec()), None, None);
        match r {
            Err(Error::Common(CommonError::MalformedStatus)) => {}
            other => panic!("{:?} accepted as {:?}", bad, other),
        };
    }
}

#[test]
fn lookup_accepts_a_status_with_surrounding_whitespace() {
    let s = storage("https://example.com/", "GET");
    let response = s.lookup(true, Some(b" 204\n".to_vec()), None, None).unwrap();
    assert_eq!(response.status, 204);
    assert_eq!(response.headers, Vec::<(String, String)>::new());
    assert_eq!(response.body, Vec::<u8>::new());
}

#[test]
fn lookup_with_malformed_headers_reports_the_corrupt_entry() {
    let s = storage("https://example.com/", "GET");
    let r = s.lookup(
        true,
        Some(b"200\n".to_vec()),
        Some(b"} not yaml pairs {".to_vec()),
        None,
    );
    match r {
        Err(Error::Common(CommonError::MalformedHeaders)) => {}
        other => panic!("Unexpected outcome: {:?}", other),
    };
}

#[test]
fn lookup_reads_missing_headers_and_body_files_as_empty() {
    let s = storage("https://example.com/", "GET");
    let response = s.lookup(true, Some(b"201\n".to_vec()), None, None).unwrap();
    assert_eq!(response.status, 201);
    assert!(response.headers.is_empty());
    assert!(response.body.is_empty());
}

#[test]
fn test_save_should_save_response_status_in_status_file() {
    let s = storage("https://example.com/some-path/?query=value", "GET");
    let writes = s
        .store_plan(&CacheEntry {
            status: 403,
            headers: vec![],
            body: "Lorem ipsum dolor sit amet".as_bytes().to_vec(),
        })
        .unwrap();
    assert_eq!(writes[2].0, "GET.status");
    assert_eq!(writes[2].1, b"403\n".to_vec());
}

#[test]
fn test_save_should_save_response_body_in_body_file() {
    let s = storage("https://example.com/some-path/?query=value", "GET");
    let writes = s
        .store_plan(&CacheEntry {
            status: 200,
            headers: vec![],
            body: "Lorem ipsum dolor sit amet".as_bytes().to_vec(),
        })
        .expect("Cannot save request to storage");
    assert_eq!(writes[0].0, "GET.body");
    assert_eq!(writes[0].1, "Lorem ipsum dolor sit amet".as_bytes().to_vec());
}

#[test]
fn test_save_should_save_response_headers_in_headers_file() {
    let s = storage("https://example.com/some-path/?query=value", "GET");
    let writes = s
        .store_plan(&CacheEntry {
            status: 200,
            headers: vec![("Authorization".to_string(), "Bearer".to_string())],
            body: Vec::new(),
        })
        .expect("Cannot save request to storage");
    assert_eq!(writes[1].0, "GET.headers.yaml");
    // the headers file parses back to the list that was saved
    let read_back = s
        .lookup(true, Some(b"200\n".to_vec()), Some(writes[1].1.clone()), None)
        .unwrap();
    assert_eq!(
        read_back.headers,
        vec![("Authorization".to_string(), "Bearer".to_string())]
    );
}

#[test]
fn store_plan_records_an_upstream_response_as_the_spec_lays_out() {
    // an upstream answer: 202, a content type, a small JSON body
    let s = storage("https://localhost/", "GET");
    let upstream = CacheEntry {
        status: 202,
        headers: vec![("content-type".to_string(), "application/json".to_string())],
        body: b"{\"Lorem\": \"ipsum\"}".to_vec(),
    };
    let writes = s.store_plan(&upstream).unwrap();
    assert_eq!(writes[2].1, b"202\n".to_vec());
    assert_eq!(writes[0].1, b"{\"Lorem\": \"ipsum\"}".to_vec());
    let read_back = s
        .lookup(
            true,
            Some(writes[2].1.clone()),
            Some(writes[1].1.clone()),
            Some(writes[0].1.clone()),
        )
        .unwrap();
    assert_eq!(read_back.status, 202);
    assert_eq!(
        read_back.headers,
        vec![("content-type".to_string(), "application/json".to_string())]
    );
    assert_eq!(read_back.body, b"{\"Lorem\": \"ipsum\"}".to_vec());
}

#[test]
fn lookup_serves_a_preseeded_entry_without_the_upstream() {
    // a hand-written entry: 201, a content type, a small JSON body
    let s = storage("http://localhost/", "GET");
    let response = s
        .lookup(
            true,
            Some(b"201\n".to_vec()),
            Some(b"[[\"content-type\",\"application/json\"]]".to_vec()),
            Some(b"{\"lorem\": \"ipsum\"}\n".to_vec()),
        )
        .unwrap();
    assert_eq!(response.status, 201);
    assert_eq!(
        response.headers,
        vec![("content-type".to_string(), "application/json".to_string())]
    );
    assert_eq!(response.body, b"{\"lorem\": \"ipsum\"}\n".to_vec());
    // a hit turns into serving the entry, never into an upstream call
    let event = parody::pipeline::lookup_event(&Ok(response));
    assert_eq!(event, parody::pipeline::PipelineEvent::LookupHit);
}
