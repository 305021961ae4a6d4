use mcsync::plan::DownloadPlan;

#[test]
fn new_plan_is_empty() {
    let p = DownloadPlan::new();
    assert!(p.is_empty());
    assert_eq!(p.len(), 0);
}

#[test]
fn insert_and_lookup() {
    let mut p = DownloadPlan::new();
    p.insert("https://host/a.jar".to_string(), "/r/libs/a".to_string());
    assert_eq!(p.len(), 1);
    assert!(p.contains_url(&"https://host/a.jar".to_string()));
    assert_eq!(
        p.get_dir(&"https://host/a.jar".to_string()),
        Some(&"/r/libs/a".to_string())
    );
    assert_eq!(p.get_dir(&"https://host/b.jar".to_string()), None);
}

#[test]
fn duplicate_url_inserted_once() {
    let mut p = DownloadPlan::new();
    p.insert("https://host/a.jar".to_string(), "/r/libs/a".to_string());
    p.insert("https://host/a.jar".to_string(), "/r/libs/a".to_string());
    assert_eq!(p.len(), 1);
}

#[test]
fn entries_expose_the_pairs() {
    let mut p = DownloadPlan::new();
    p.insert("u1".to_string(), "d1".to_string());
    p.insert("u2".to_string(), "d2".to_string());
    let pairs = p.entries();
    assert_eq!(pairs.len(), 2);
    assert_eq!(pairs[0], ("u1".to_string(), "d1".to_string()));
    assert_eq!(pairs[1], ("u2".to_string(), "d2".to_string()));
}
