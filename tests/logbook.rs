use logbook_rs::{
    get_default_logbook_dir, logbook_path_in, now_millis, Log, Logbook, LogbookError, Project,
};

fn texts(b: &Logbook, project: &str) -> Vec<(usize, String)> {
    b.logs(project)
        .unwrap()
        .iter()
        .map(|l| (l.id, l.text.clone()))
        .collect()
}

#[test]
fn test_add() {
    assert_eq!(2 + 2, 4);
}

#[test]
fn scenario_add_and_delete_logs() {
    let mut b = Logbook::new();
    assert_eq!(b.add_project("work"), Ok(()));
    assert_eq!(b.add_log("work", "wrote spec"), Ok(()));
    assert_eq!(b.add_log("work", "reviewed PR"), Ok(()));
    assert_eq!(
        texts(&b, "work"),
        vec![(0, "wrote spec".to_string()), (1, "reviewed PR".to_string())]
    );
    assert_eq!(b.delete_log("work", 0), Ok(true));
    assert_eq!(texts(&b, "work"), vec![(0, "reviewed PR".to_string())]);
}

#[test]
fn new_logbook_is_empty_with_decimal_creation_time() {
    let b = Logbook::new();
    assert!(b.projects().is_empty());
    assert!(!b.created_at().is_empty());
    assert!(b.created_at().chars().all(|c| c.is_ascii_digit()));
    assert!(b.created_at().parse::<u128>().unwrap() > 0);
}

#[test]
fn new_at_writes_creation_time_in_decimal() {
    assert_eq!(Logbook::new_at(1700000000123).created_at(), "1700000000123");
    assert_eq!(Logbook::new_at(0).created_at(), "0");
    assert_eq!(
        Logbook::new_at(u128::MAX).created_at(),
        "340282366920938463463374607431768211455"
    );
}

#[test]
fn now_millis_is_after_2020() {
    assert!(now_millis() > 1_577_836_800_000);
}

#[test]
fn add_log_at_stamps_and_numbers_entries() {
    let mut b = Logbook::new_at(5);
    b.add_project("p").unwrap();
    for (i, t) in ["a", "b", "c", "d"].iter().enumerate() {
        assert_eq!(b.add_log_at("p", t, 100 + i as u128), Ok(()));
    }
    let logs = b.logs("p").unwrap();
    assert_eq!(logs.len(), 4);
    for (i, l) in logs.iter().enumerate() {
        assert_eq!(l.id, i);
        assert_eq!(l.timestamp, format!("{}", 100 + i));
    }
    assert_eq!(texts(&b, "p")[2].1, "c");
}

#[test]
fn add_log_to_missing_project_fails() {
    let mut b = Logbook::new_at(1);
    b.add_project("a").unwrap();
    assert_eq!(b.add_log("b", "x"), Err(LogbookError::ProjectNotFound));
    assert!(b.logs("a").unwrap().is_empty());
    assert!(b.logs("b").is_none());
}

#[test]
fn duplicate_project_is_refused_and_kept() {
    let mut b = Logbook::new_at(1);
    b.add_project("a").unwrap();
    b.add_log_at("a", "keep me", 2).unwrap();
    assert_eq!(b.add_project("a"), Err(LogbookError::DuplicateProject));
    assert_eq!(texts(&b, "a"), vec![(0, "keep me".to_string())]);
    assert_eq!(b.projects().len(), 1);
}

#[test]
fn delete_middle_log_renumbers() {
    let mut b = Logbook::new_at(1);
    b.add_project("p").unwrap();
    for t in ["a", "b", "c", "d"] {
        b.add_log_at("p", t, 9).unwrap();
    }
    assert_eq!(b.delete_log("p", 1), Ok(true));
    assert_eq!(
        texts(&b, "p"),
        vec![(0, "a".to_string()), (1, "c".to_string()), (2, "d".to_string())]
    );
    assert_eq!(b.delete_log("p", 2), Ok(true));
    assert_eq!(texts(&b, "p"), vec![(0, "a".to_string()), (1, "c".to_string())]);
}

#[test]
fn delete_log_out_of_range_changes_nothing() {
    let mut b = Logbook::new_at(1);
    b.add_project("p").unwrap();
    b.add_log_at("p", "a", 3).unwrap();
    b.add_log_at("p", "b", 4).unwrap();
    let before = b.clone();
    assert_eq!(b.delete_log("p", 2), Ok(false));
    assert_eq!(b.delete_log("p", usize::MAX), Ok(false));
    assert_eq!(b, before);
}

#[test]
fn delete_log_of_missing_project_fails() {
    let mut b = Logbook::new_at(1);
    assert_eq!(b.delete_log("none", 0), Err(LogbookError::ProjectNotFound));
}

#[test]
fn delete_log_from_empty_project() {
    let mut b = Logbook::new_at(1);
    b.add_project("p").unwrap();
    assert_eq!(b.delete_log("p", 0), Ok(false));
    assert!(b.logs("p").unwrap().is_empty());
}

#[test]
fn add_then_delete_project_keeps_others() {
    let mut b = Logbook::new_at(1);
    b.add_project("y").unwrap();
    b.add_log_at("y", "stay", 2).unwrap();
    assert_eq!(b.add_project("x"), Ok(()));
    assert!(b.delete_project("x"));
    assert!(b.logs("x").is_none());
    assert_eq!(texts(&b, "y"), vec![(0, "stay".to_string())]);
    assert!(!b.delete_project("x"));
    assert_eq!(b.projects().len(), 1);
    assert_eq!(b.created_at(), "1");
}

#[test]
fn from_parts_rebuilds_and_refuses_duplicates() {
    let mut b = Logbook::new_at(42);
    b.add_project("a").unwrap();
    b.add_project("b").unwrap();
    b.add_log_at("b", "t", 43).unwrap();
    let rebuilt = Logbook::from_parts(b.created_at().clone(), b.projects().clone()).unwrap();
    assert_eq!(rebuilt, b);

    let p = Project { name: "a".to_string(), logs: vec![] };
    let q = Project {
        name: "a".to_string(),
        logs: vec![Log { id: 0, timestamp: "1".to_string(), text: "x".to_string() }],
    };
    assert_eq!(
        Logbook::from_parts("1".to_string(), vec![p, q]),
        Err(LogbookError::DuplicateProject)
    );
}

#[test]
fn logbook_path_is_under_home() {
    assert_eq!(logbook_path_in("/home/alice"), "/home/alice/.logbook.json");
    assert_eq!(logbook_path_in(""), "/.logbook.json");
    if let Ok(p) = get_default_logbook_dir() {
        assert!(p.ends_with("/.logbook.json"));
    }
}
