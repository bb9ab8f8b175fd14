use sandman::snapshot::{get_sha_diff, merge_diff_old, ShaFile};

fn snapshot(ts: u128, entries: &[(&str, &str)]) -> ShaFile {
    let mut s = ShaFile::at(ts);
    for (p, d) in entries {
        s.insert(p.to_string(), d.to_string());
    }
    s
}

fn digest_of<'a>(s: &'a ShaFile, p: &str) -> Option<&'a String> {
    s.get(&p.to_string())
}

#[test]
fn insert_replaces_the_digest_of_a_path() {
    let s = snapshot(5, &[("a", "1"), ("b", "2"), ("a", "3")]);
    assert_eq!(s.len(), 2);
    assert_eq!(digest_of(&s, "a").unwrap(), "3");
    assert_eq!(digest_of(&s, "b").unwrap(), "2");
    assert!(digest_of(&s, "c").is_none());
    assert_eq!(s.timestamp(), 5);
}

#[test]
fn new_snapshot_is_empty_and_stamped_now() {
    let s = ShaFile::new();
    assert_eq!(s.len(), 0);
    assert!(s.timestamp() > 1_600_000_000_000);
}

#[test]
fn entries_list_every_path_once() {
    let s = snapshot(1, &[("a", "1"), ("b", "2"), ("a", "4")]);
    let mut seen: Vec<(String, String)> = Vec::new();
    for i in 0..s.len() {
        let (p, d) = s.entry(i);
        seen.push((p.clone(), d.clone()));
    }
    seen.sort();
    assert_eq!(seen, vec![("a".to_string(), "4".to_string()), ("b".to_string(), "2".to_string())]);
}

#[test]
fn diff_keeps_new_and_changed_paths_only() {
    let old = snapshot(10, &[("a", "1"), ("b", "2"), ("gone", "9")]);
    let new = snapshot(20, &[("a", "1"), ("b", "5"), ("c", "7")]);
    let diff = get_sha_diff(&old, new);
    assert_eq!(diff.len(), 2);
    assert!(digest_of(&diff, "a").is_none());
    assert_eq!(digest_of(&diff, "b").unwrap(), "5");
    assert_eq!(digest_of(&diff, "c").unwrap(), "7");
    assert!(digest_of(&diff, "gone").is_none());
    assert_eq!(diff.timestamp(), 20);
}

#[test]
fn diff_against_empty_baseline_is_everything() {
    let old = ShaFile::at(0);
    let new = snapshot(3, &[("a", "1"), ("b", "2")]);
    let diff = get_sha_diff(&old, new);
    assert_eq!(diff.len(), 2);
    assert_eq!(digest_of(&diff, "a").unwrap(), "1");
    assert_eq!(digest_of(&diff, "b").unwrap(), "2");
}

#[test]
fn merge_overlays_the_change_set() {
    let old = snapshot(10, &[("a", "1"), ("b", "2"), ("gone", "9")]);
    let diff = snapshot(20, &[("b", "5"), ("c", "7")]);
    let merged = merge_diff_old(old, &diff);
    assert_eq!(merged.len(), 4);
    assert_eq!(digest_of(&merged, "a").unwrap(), "1");
    assert_eq!(digest_of(&merged, "b").unwrap(), "5");
    assert_eq!(digest_of(&merged, "c").unwrap(), "7");
    assert_eq!(digest_of(&merged, "gone").unwrap(), "9");
    assert_eq!(merged.timestamp(), 20);
}

#[test]
fn merged_baseline_covers_every_new_path() {
    let s0 = snapshot(1, &[("a", "1"), ("b", "2")]);
    let s1 = snapshot(2, &[("a", "3"), ("b", "2"), ("c", "4")]);
    let diff = get_sha_diff(&s0, snapshot(2, &[("a", "3"), ("b", "2"), ("c", "4")]));
    let merged = merge_diff_old(s0, &diff);
    for i in 0..s1.len() {
        let (p, d) = s1.entry(i);
        assert_eq!(merged.get(p).unwrap(), d);
    }
}

#[test]
fn second_scan_of_unchanged_tree_finds_nothing() {
    let prior = ShaFile::at(0);
    let first = snapshot(1, &[("a", "1"), ("b", "2")]);
    let diff = get_sha_diff(&prior, first);
    let baseline = merge_diff_old(prior, &diff);
    let second = snapshot(2, &[("a", "1"), ("b", "2")]);
    let again = get_sha_diff(&baseline, second);
    assert_eq!(again.len(), 0);
}
