use parody::config::Config;
use parody::config::QueryInPath;

#[test]
fn test_config_with_query_should_insert_query_sorted() {
    let config = Config::default()
        .with_query_path("foo")
        .with_query_path("1delta")
        .with_query_path("bar")
        .with_query_path("foo");

    match config.query_in_path {
        QueryInPath::Selected(queries) => assert_eq!(queries, vec!["1delta", "bar", "foo"]),
        _ => panic!(),
    };
}

#[test]
fn test_config_with_query_when_has_query_in_path_should_return_true() {
    let mut config = Config::default();
    config.use_query_path("foo");
    assert_eq!(config.is_query_in_path("foo"), true)
}

#[test]
fn test_config_with_query_when_no_query_in_path_should_return_true() {
    assert_eq!(
        Config::default().with_query_path("foo").is_query_in_path("bar"),
        false
    );
}

#[test]
fn config_default_selects_every_query_parameter() {
    let config = Config::default();
    assert!(config.is_query_in_path("anything"));
    assert!(config.host_in_path);
    assert_eq!(config.get_root_dir(), "");
}

#[test]
fn config_no_query_path_selects_nothing() {
    let config = Config::default().with_no_query_path();
    assert!(!config.is_query_in_path("anything"));
    let back = config.with_all_query_path();
    assert!(back.is_query_in_path("anything"));
}
