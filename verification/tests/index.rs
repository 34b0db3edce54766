use cargo_mirrorer::fetching::constants::{
    DEFAULT_CONFIG, DEFAULT_CRATES_PATH, DEFAULT_INDEX_PATH, DEFAULT_SOURCE_INDEX,
    INDEX_MAX_DEPTH, INDEX_MIN_DEPTH,
};
use cargo_mirrorer::fetching::index::{
    Index, IndexConfig, IndexSnapshot, IndexState, ReadinessVerdict,
};
use cargo_mirrorer::fetching::plan::FetchPlan;
use cargo_mirrorer::fetching::util::is_hidden;

fn index_with(plan: FetchPlan) -> Index {
    Index::new(IndexConfig {
        fetch_plan: plan,
        index_path: "crates_index".to_string(),
        source_index: "https://example.org/index.git".to_string(),
    })
}

fn tree_with(origin: Option<&str>, files: &[&str]) -> IndexSnapshot {
    IndexSnapshot {
        exists: true,
        origin: origin.map(String::from),
        files: files.iter().map(|f| f.to_string()).collect(),
    }
}

fn names(list: &[&str]) -> Vec<String> {
    list.iter().map(|n| n.to_string()).collect()
}

#[test]
fn a_new_index_is_not_ready() {
    let index = index_with(FetchPlan::Playground);
    assert!(!index.ready);
    assert_eq!(FetchPlan::Playground, index.config.fetch_plan);
    assert_eq!("crates_index", index.config.index_path);
    assert_eq!("https://example.org/index.git", index.config.source_index);
}

#[test]
fn the_default_index_is_the_whole_registry_at_the_default_place() {
    let index = Index::default();
    assert!(!index.ready);
    assert_eq!(FetchPlan::AllCrates, index.config.fetch_plan);
    assert_eq!("crates_index", index.config.index_path);
    assert_eq!(
        "https://github.com/rust-lang/crates.io-index.git",
        index.config.source_index
    );
    assert_eq!(DEFAULT_INDEX_PATH, index.config.index_path);
    assert_eq!(DEFAULT_SOURCE_INDEX, index.config.source_index);
}

#[test]
fn the_defaults_are_the_documented_ones() {
    assert_eq!("crates_index", DEFAULT_INDEX_PATH);
    assert_eq!("crates", DEFAULT_CRATES_PATH);
    assert_eq!("\n{\n    \"dl\": \"127.0.0.1:3000\"\n}\n", DEFAULT_CONFIG);
    assert_eq!(2, INDEX_MIN_DEPTH);
    assert_eq!(3, INDEX_MAX_DEPTH);
}

#[test]
fn index_files_are_looked_for_below_the_root() {
    let index = index_with(FetchPlan::AllCrates);
    assert_eq!("crates_index/1/a", index.path_in_index("a"));
    assert_eq!("crates_index/2/ab", index.path_in_index("ab"));
    assert_eq!("crates_index/3/a/abc", index.path_in_index("abc"));
    assert_eq!("crates_index/to/ki/tokio", index.path_in_index("tokio"));
}

#[test]
fn a_package_exists_where_its_index_file_was_found() {
    let index = index_with(FetchPlan::AllCrates);
    let tree = tree_with(None, &["crates_index/to/ki/tokio", "crates_index/1/a"]);
    assert!(index.exists_in_index("tokio", &tree));
    assert!(index.exists_in_index("a", &tree));
    assert!(!index.exists_in_index("serde", &tree));
    assert!(!index.exists_in_index("toki", &tree));
    let elsewhere = tree_with(None, &["to/ki/tokio", "other/to/ki/tokio"]);
    assert!(!index.exists_in_index("tokio", &elsewhere));
}

#[test]
fn a_missing_root_needs_a_full_clone_under_every_plan() {
    let gone = IndexSnapshot {
        exists: false,
        origin: Some("https://example.org/index.git".to_string()),
        files: vec!["crates_index/1/a".to_string()],
    };
    for plan in [
        FetchPlan::AllCrates,
        FetchPlan::Playground,
        FetchPlan::TopN(3),
        FetchPlan::List(names(&["a"])),
    ] {
        assert_eq!(
            ReadinessVerdict::NeedsFullClone,
            index_with(plan).adheres_to_fetching_policy(&gone, &names(&["a"]))
        );
    }
}

#[test]
fn the_recorded_origin_decides_under_the_plan_for_all() {
    let index = index_with(FetchPlan::AllCrates);
    let same = tree_with(Some("https://example.org/index.git"), &[]);
    assert_eq!(
        ReadinessVerdict::Ready,
        index.adheres_to_fetching_policy(&same, &Vec::new())
    );
    assert_eq!(ReadinessVerdict::Ready, index.check_index_main(&same));
}

#[test]
fn another_origin_is_never_ready() {
    let index = index_with(FetchPlan::AllCrates);
    let expected = ReadinessVerdict::OriginMismatch("https://example.org/index.git".to_string());
    for origin in [
        Some("https://example.org/other.git"),
        Some("https://example.org/index.git\n"),
        Some("https://example.org/index.gi"),
        Some(""),
        None,
    ] {
        let tree = tree_with(origin, &["crates_index/1/a"]);
        assert_eq!(
            expected,
            index.adheres_to_fetching_policy(&tree, &names(&["a"]))
        );
        assert_eq!(expected, index.check_index_main(&tree));
    }
}

#[test]
fn a_listed_package_that_is_absent_makes_the_index_stale() {
    let index = index_with(FetchPlan::List(names(&["tokio", "serde", "a"])));
    let tree = tree_with(None, &["crates_index/to/ki/tokio", "crates_index/1/a"]);
    assert_eq!(
        ReadinessVerdict::Stale(names(&["serde"])),
        index.adheres_to_fetching_policy(&tree, &Vec::new())
    );
    let empty = tree_with(None, &[]);
    assert_eq!(
        ReadinessVerdict::Stale(names(&["tokio", "serde", "a"])),
        index.adheres_to_fetching_policy(&empty, &Vec::new())
    );
}

#[test]
fn missing_names_come_in_the_order_required_and_as_often() {
    let index = index_with(FetchPlan::List(names(&["b", "a", "b", "cc"])));
    let tree = tree_with(None, &["crates_index/1/a"]);
    assert_eq!(
        ReadinessVerdict::Stale(names(&["b", "b", "cc"])),
        index.adheres_to_fetching_policy(&tree, &Vec::new())
    );
}

#[test]
fn a_list_that_is_all_there_is_ready_whatever_the_origin() {
    let index = index_with(FetchPlan::List(names(&["tokio", "a"])));
    let tree = tree_with(
        Some("https://example.org/other.git"),
        &["crates_index/1/a", "crates_index/2/zz", "crates_index/to/ki/tokio"],
    );
    assert_eq!(
        ReadinessVerdict::Ready,
        index.adheres_to_fetching_policy(&tree, &names(&["serde"]))
    );
}

#[test]
fn curated_and_counted_plans_are_checked_against_the_resolved_names() {
    let tree = tree_with(None, &["crates_index/se/rd/serde"]);
    for plan in [FetchPlan::Playground, FetchPlan::TopN(2)] {
        let index = index_with(plan);
        assert_eq!(
            ReadinessVerdict::Ready,
            index.adheres_to_fetching_policy(&tree, &names(&["serde"]))
        );
        assert_eq!(
            ReadinessVerdict::Stale(names(&["rand"])),
            index.adheres_to_fetching_policy(&tree, &names(&["serde", "rand"]))
        );
        assert_eq!(
            ReadinessVerdict::Ready,
            index.adheres_to_fetching_policy(&tree, &Vec::new())
        );
    }
}

#[test]
fn the_lean_check_lists_what_is_missing() {
    let index = index_with(FetchPlan::AllCrates);
    let tree = tree_with(None, &["crates_index/3/a/abc"]);
    assert_eq!(
        ReadinessVerdict::Ready,
        index.check_index_lean(&names(&["abc"]), &tree)
    );
    assert_eq!(
        ReadinessVerdict::Stale(names(&["abd"])),
        index.check_index_lean(&names(&["abc", "abd"]), &tree)
    );
    assert_eq!(ReadinessVerdict::Ready, index.check_index_lean(&Vec::new(), &tree));
}

#[test]
fn names_that_start_with_a_dot_are_hidden() {
    assert!(is_hidden(".git"));
    assert!(is_hidden("."));
    assert!(is_hidden(".."));
    assert!(is_hidden(".github"));
    assert!(!is_hidden("git"));
    assert!(!is_hidden("a.b"));
    assert!(!is_hidden("config.json"));
    assert!(!is_hidden(""));
    assert!(!is_hidden("é."));
}

#[test]
fn a_list_requires_its_own_names_and_other_plans_the_resolved_ones() {
    let resolved = names(&["x", "y"]);
    let listed = index_with(FetchPlan::List(names(&["a", "b"])));
    assert_eq!(&names(&["a", "b"]), listed.required_crates(&resolved));
    let curated = index_with(FetchPlan::Playground);
    assert_eq!(&resolved, curated.required_crates(&resolved));
    let counted = index_with(FetchPlan::TopN(9));
    assert_eq!(&resolved, counted.required_crates(&resolved));
    let all = index_with(FetchPlan::AllCrates);
    assert_eq!(&resolved, all.required_crates(&resolved));
}

#[test]
fn each_verdict_puts_the_index_in_its_state() {
    assert_eq!(IndexState::Ready, ReadinessVerdict::Ready.state());
    assert_eq!(IndexState::OutOfDate, ReadinessVerdict::NeedsFullClone.state());
    assert_eq!(
        IndexState::OutOfDate,
        ReadinessVerdict::Stale(names(&["a"])).state()
    );
    assert_eq!(
        IndexState::Invalid,
        ReadinessVerdict::OriginMismatch("origin".to_string()).state()
    );
}
