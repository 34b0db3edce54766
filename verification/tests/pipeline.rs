use cargo_mirrorer::fetching::index::{
    Index, IndexConfig, IndexSnapshot, IndexState, ReadinessVerdict,
};
use cargo_mirrorer::fetching::layout::{index_file_of, is_index_entry};
use cargo_mirrorer::fetching::plan::FetchPlan;
use cargo_mirrorer::fetching::scan::ScanOutcome;
use cargo_mirrorer::fetching::schedule::{Scheduler, Step};

#[test]
fn three_packages_are_scanned_and_fetched_into_three_archives() {
    let tree: Vec<(String, Vec<String>)> = vec![
        (
            index_file_of("a"),
            vec![r#"{"name":"a","vers":"0.1.0","deps":[],"yanked":false}"#.to_string()],
        ),
        (
            index_file_of("bb"),
            vec![r#"{"name":"bb","vers":"1.2.3","deps":[],"yanked":false}"#.to_string()],
        ),
        (
            index_file_of("ccc"),
            vec![r#"{"name":"ccc","vers":"2.0.0-rc.1","deps":[],"yanked":false}"#.to_string()],
        ),
    ];
    assert_eq!("1/a", tree[0].0);
    assert_eq!("2/bb", tree[1].0);
    assert_eq!("3/c/ccc", tree[2].0);

    let plan = FetchPlan::from_str("a,bb,ccc").unwrap();
    let index = Index::new(IndexConfig {
        fetch_plan: plan,
        index_path: "index".to_string(),
        source_index: "origin".to_string(),
    });
    let snapshot = IndexSnapshot {
        exists: true,
        origin: None,
        files: tree.iter().map(|(path, _)| format!("index/{}", path)).collect(),
    };
    let verdict = index.adheres_to_fetching_policy(&snapshot, &Vec::new());
    assert_eq!(ReadinessVerdict::Ready, verdict);
    assert_eq!(IndexState::Ready, verdict.state());

    let mut outcome = ScanOutcome::new();
    for (_, lines) in tree.iter() {
        outcome.absorb(ScanOutcome::of_lines(lines));
    }
    assert_eq!(3, outcome.discovered());
    assert_eq!(0, outcome.skipped());
    let skipped = outcome.skipped();
    let krates = outcome.into_krates();

    let mut scheduler = Scheduler::new(krates.len(), 5).unwrap();
    let mut written: Vec<String> = Vec::new();
    let mut asked: Vec<String> = Vec::new();
    let mut under_way: Vec<usize> = Vec::new();
    loop {
        match scheduler.next_step() {
            Step::Start(i) => {
                asked.push(krates[i].url().to_string());
                under_way.push(i);
            }
            Step::Wait => {
                let i = under_way.pop().unwrap();
                written.push(krates[i].path().within("archives"));
                assert!(scheduler.resolve(i, true));
            }
            Step::Finished => break,
        }
    }
    written.sort();
    assert_eq!(
        vec![
            "archives/a-0.1.0.crate".to_string(),
            "archives/bb-1.2.3.crate".to_string(),
            "archives/ccc-2.0.0-rc.1.crate".to_string(),
        ],
        written
    );
    assert_eq!(
        vec![
            "https://static.crates.io/crates/a/a-0.1.0.crate".to_string(),
            "https://static.crates.io/crates/bb/bb-1.2.3.crate".to_string(),
            "https://static.crates.io/crates/ccc/ccc-2.0.0-rc.1.crate".to_string(),
        ],
        asked
    );
    let summary = scheduler.summary(skipped);
    assert_eq!(3, summary.discovered);
    assert!(summary.is_clean());
}

#[test]
fn the_walk_and_the_scan_find_the_three_packages_of_a_tree() {
    let record = |name: &str| format!("{{\"name\":\"{}\",\"vers\":\"1.0.0\"}}", name);
    let tree: Vec<(String, Vec<String>)> = vec![
        ("config.json".to_string(), vec!["{\"dl\":\"x\"}".to_string()]),
        (".git/config".to_string(), vec![record("hidden")]),
        (".git/objects/ab".to_string(), vec![record("hidden")]),
        (index_file_of("a"), vec![record("a")]),
        (index_file_of("bb"), vec![record("bb")]),
        (index_file_of("ccc"), vec![record("ccc")]),
        ("3/c/.ccc.swp".to_string(), vec![record("ccc")]),
        ("se/rd/serde/old".to_string(), vec![record("serde")]),
    ];
    let read: Vec<Vec<String>> = tree
        .iter()
        .filter(|(path, _)| is_index_entry(path))
        .map(|(_, lines)| lines.clone())
        .collect();
    assert_eq!(3, read.len());

    let outcome = ScanOutcome::of_files(&read);
    assert_eq!(3, outcome.discovered());
    assert_eq!(0, outcome.skipped());
    let mut found: Vec<(String, String)> = outcome
        .krates()
        .iter()
        .map(|k| (k.path().name().to_string(), k.path().version().to_string()))
        .collect();
    found.sort();
    assert_eq!(
        vec![
            ("a".to_string(), "1.0.0".to_string()),
            ("bb".to_string(), "1.0.0".to_string()),
            ("ccc".to_string(), "1.0.0".to_string()),
        ],
        found
    );

    let krates = outcome.into_krates();
    let mut scheduler = Scheduler::new(krates.len(), 5).unwrap();
    let mut attempts = 0;
    let mut archives: Vec<String> = Vec::new();
    let mut under_way: Vec<usize> = Vec::new();
    loop {
        match scheduler.next_step() {
            Step::Start(i) => {
                attempts += 1;
                under_way.push(i);
            }
            Step::Wait => {
                let i = under_way.remove(0);
                archives.push(krates[i].path().file_name());
                assert!(scheduler.resolve(i, true));
            }
            Step::Finished => break,
        }
    }
    assert_eq!(3, attempts);
    archives.sort();
    assert_eq!(
        vec![
            "a-1.0.0.crate".to_string(),
            "bb-1.0.0.crate".to_string(),
            "ccc-1.0.0.crate".to_string(),
        ],
        archives
    );
}
