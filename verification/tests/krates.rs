use cargo_mirrorer::fetching::krates::{Krate, KratePath};
use cargo_mirrorer::fetching::nesting::MAX_NESTING;

#[test]
fn a_record_line_gives_its_name_and_version() {
    let line = r#"{"name":"serde","vers":"1.0.0","deps":[],"cksum":"abc","features":{},"yanked":false}"#;
    let krate = Krate::from_line(line).unwrap();
    assert_eq!("serde", krate.path().name());
    assert_eq!("1.0.0", krate.path().version());
    assert_eq!(
        "https://static.crates.io/crates/serde/serde-1.0.0.crate",
        krate.url()
    );
    assert_eq!("./crates/serde-1.0.0.crate", krate.path().to_string());
}

#[test]
fn the_fields_are_found_wherever_they_stand_in_the_record() {
    let line = r#" { "deps" : [ {"name":"inner","vers":"9"} ], "vers" : "0.2.1" , "yanked":true, "name" : "a-b_c" } "#;
    let krate = Krate::from_line(line).unwrap();
    assert_eq!("a-b_c", krate.path().name());
    assert_eq!("0.2.1", krate.path().version());
}

#[test]
fn escapes_in_a_field_are_resolved() {
    let line = r#"{"name":"qu\"ote","vers":"1.0.0+build.1"}"#;
    let krate = Krate::from_line(line).unwrap();
    assert_eq!("qu\"ote", krate.path().name());
    assert_eq!("1.0.0+build.1", krate.path().version());
}

#[test]
fn a_line_that_describes_no_version_gives_none() {
    for line in [
        "",
        " ",
        "not json",
        "{",
        "[]",
        "{}",
        "null",
        r#""name""#,
        r#"{"name":"serde"}"#,
        r#"{"vers":"1.0.0"}"#,
        r#"{"name":"serde","version":"1.0.0"}"#,
        r#"{"name":5,"vers":"1.0.0"}"#,
        r#"{"name":"serde","vers":1}"#,
        r#"{"name":null,"vers":"1.0.0"}"#,
        r#"{"name":["serde"],"vers":"1.0.0"}"#,
        r#"{"name":"","vers":"1.0.0"}"#,
        r#"{"name":"serde","vers":""}"#,
        r#"{"name":"serde","vers":"1.0.0"#,
        r#"{"name":"serde""vers":"1.0.0"}"#,
        r#"{"name":"serde",,"vers":"1.0.0"}"#,
        r#"{"nested":{"name":"serde","vers":"1.0.0"}}"#,
    ] {
        assert!(Krate::from_line(line).is_none(), "{:?}", line);
    }
}

#[test]
fn fields_make_a_version_only_where_both_are_there() {
    let some = |s: &str| Some(s.to_string());
    let krate = Krate::from_fields(Some((some("rand"), some("0.8.5")))).unwrap();
    assert_eq!("rand", krate.path().name());
    assert_eq!("0.8.5", krate.path().version());
    assert!(Krate::from_fields(None).is_none());
    assert!(Krate::from_fields(Some((None, None))).is_none());
    assert!(Krate::from_fields(Some((some("rand"), None))).is_none());
    assert!(Krate::from_fields(Some((None, some("0.8.5")))).is_none());
    assert!(Krate::from_fields(Some((some(""), some("0.8.5")))).is_none());
    assert!(Krate::from_fields(Some((some("rand"), some("")))).is_none());
}

#[test]
fn name_and_version_are_never_empty() {
    assert!(KratePath::new("".to_string(), "1".to_string()).is_none());
    assert!(KratePath::new("a".to_string(), "".to_string()).is_none());
    assert!(KratePath::new("".to_string(), "".to_string()).is_none());
    assert!(Krate::new("".to_string(), "1".to_string()).is_none());
    assert!(Krate::new("a".to_string(), "".to_string()).is_none());
    let path = KratePath::new("a".to_string(), "1".to_string()).unwrap();
    assert_eq!("a", path.name());
    assert_eq!("1", path.version());
}

#[test]
fn the_archive_is_named_by_name_and_version() {
    let path = KratePath::new("tokio".to_string(), "1.35.0".to_string()).unwrap();
    assert_eq!("tokio-1.35.0.crate", path.file_name());
    assert_eq!("./crates/tokio-1.35.0.crate", path.to_string());
    assert_eq!("/var/mirror/tokio-1.35.0.crate", path.within("/var/mirror"));
    assert_eq!("crates/tokio-1.35.0.crate", path.within("crates"));
    assert_eq!("/tokio-1.35.0.crate", path.within(""));
}

#[test]
fn the_archive_is_fetched_from_the_static_origin() {
    let krate = Krate::new("a".to_string(), "0.0.1".to_string()).unwrap();
    assert_eq!("https://static.crates.io/crates/a/a-0.0.1.crate", krate.url());
    let krate = Krate::new("serde_json".to_string(), "1.0.108".to_string()).unwrap();
    assert_eq!(
        "https://static.crates.io/crates/serde_json/serde_json-1.0.108.crate",
        krate.url()
    );
    assert_eq!("serde_json-1.0.108.crate", krate.path().file_name());
}

#[test]
fn place_and_address_are_functions_of_name_and_version_alone() {
    let one = Krate::new("x".to_string(), "1".to_string()).unwrap();
    let two = Krate::from_line(r#"{"vers":"1","name":"x"}"#).unwrap();
    assert_eq!(one.url(), two.url());
    assert_eq!(one.path().to_string(), two.path().to_string());
    assert_eq!(one.path().within("r"), two.path().within("r"));
}

fn nested(levels: usize) -> String {
    format!(
        "{{\"x\":{}{},\"name\":\"deep\",\"vers\":\"1.0.0\"}}",
        "[".repeat(levels),
        "]".repeat(levels)
    )
}

#[test]
fn a_line_nested_within_the_limit_is_read() {
    assert_eq!(128, MAX_NESTING);
    for levels in [1, 3, 64, MAX_NESTING - 2, MAX_NESTING - 1] {
        let krate = Krate::from_line(&nested(levels)).unwrap();
        assert_eq!("deep", krate.path().name());
        assert_eq!("1.0.0", krate.path().version());
    }
}

#[test]
fn a_line_nested_too_deep_describes_nothing() {
    for levels in [MAX_NESTING, MAX_NESTING + 1, 1_000, 200_000] {
        assert!(Krate::from_line(&nested(levels)).is_none(), "{}", levels);
    }
    let open_ended = format!("{{\"x\":{}", "[".repeat(300_000));
    assert!(Krate::from_line(&open_ended).is_none());
    let objects = format!("{{\"x\":{}", "{\"y\":".repeat(300_000));
    assert!(Krate::from_line(&objects).is_none());
    let bare = "[".repeat(300_000);
    assert!(Krate::from_line(&bare).is_none());
}

#[test]
fn brackets_within_strings_do_not_nest() {
    let line = format!(
        "{{\"x\":\"{}\",\"target\":\"cfg(a = \\\"[[{{\\\")\",\"name\":\"flat\",\"vers\":\"2.0.0\"}}",
        "[{".repeat(1_000)
    );
    let krate = Krate::from_line(&line).unwrap();
    assert_eq!("flat", krate.path().name());
    assert_eq!("2.0.0", krate.path().version());
}

#[test]
fn many_values_side_by_side_do_not_nest() {
    let features: Vec<String> = (0..5_000).map(|i| format!("\"f{}\":[\"a\",\"b\"]", i)).collect();
    let deps: Vec<String> = (0..2_000)
        .map(|i| format!("{{\"name\":\"d{}\",\"features\":[],\"target\":\"cfg(x = \\\"y\\\")\"}}", i))
        .collect();
    let line = format!(
        "{{\"deps\":[{}],\"features\":{{{}}},\"name\":\"wide\",\"vers\":\"0.3.0\"}}",
        deps.join(","),
        features.join(",")
    );
    let krate = Krate::from_line(&line).unwrap();
    assert_eq!("wide", krate.path().name());
    assert_eq!("0.3.0", krate.path().version());
}
