use sandman::ignore_filter::{IgnoreFilter, RuleSource};
use sandman::scan::{Scan, Visit};
use sandman::snapshot::{get_sha_diff, merge_diff_old, ShaFile};
use sandman::upload::{cleanup_list, collect_uploaded, plan_uploads_tagged};

const X: &str = "2d711642b726b04401627ca9fbac32f5c8530fb1903cc4db02258717921a4881";
const Y: &str = "a1fce4363854ff888cff4b8e7875d600c2682390412a8cf79b37d0b11148b0fa";
const Z: &str = "594e519ae499312b29433b7dd8a97ff068defcba9755b6d5d00e84c524d67b06";

fn no_rules() -> IgnoreFilter {
    IgnoreFilter::build("d", &RuleSource::Missing, &RuleSource::Missing)
}

fn scan_two_files(a: &[u8], b: &[u8], ts: u128) -> ShaFile {
    let mut scan = Scan::new("d".to_string(), no_rules(), ts);
    assert_eq!(scan.next_directory().unwrap(), "d");
    assert_eq!(scan.visit("a.txt".to_string(), false), Visit::Read);
    assert_eq!(scan.visit("b.txt".to_string(), false), Visit::Read);
    assert_eq!(scan.next_file().unwrap(), "d/b.txt");
    assert!(scan.record(b));
    assert_eq!(scan.next_file().unwrap(), "d/a.txt");
    assert!(scan.record(a));
    assert!(scan.next_file().is_none());
    assert!(!scan.record(b"late"));
    assert!(scan.next_directory().is_none());
    scan.finish()
}

fn digest<'a>(s: &'a ShaFile, p: &str) -> Option<&'a String> {
    s.get(&p.to_string())
}

#[test]
fn first_cycle_uploads_everything() {
    let snapshot = scan_two_files(b"x", b"y", 1_000);
    assert_eq!(snapshot.len(), 2);
    assert_eq!(digest(&snapshot, "d/a.txt").unwrap(), X);
    assert_eq!(digest(&snapshot, "d/b.txt").unwrap(), Y);
    assert_eq!(snapshot.timestamp(), 1_000);

    let prior = ShaFile::at(900);
    let diff = get_sha_diff(&prior, scan_two_files(b"x", b"y", 1_000));
    assert_eq!(diff.len(), 2);
    assert_eq!(digest(&diff, "d/a.txt").unwrap(), X);
    assert_eq!(digest(&diff, "d/b.txt").unwrap(), Y);

    let planned = plan_uploads_tagged(&diff, "prefix", "2024-01-02--03-04-05");
    let mut keys: Vec<String> = planned.iter().map(|f| f.remote_name.clone()).collect();
    keys.sort();
    assert_eq!(
        keys,
        vec!["prefix/2024-01-02--03-04-05/d/a.txt", "prefix/2024-01-02--03-04-05/d/b.txt"]
    );

    let merged = merge_diff_old(prior, &diff);
    assert_eq!(merged.len(), 2);
    assert_eq!(digest(&merged, "d/a.txt").unwrap(), X);
    assert_eq!(digest(&merged, "d/b.txt").unwrap(), Y);
    assert_eq!(merged.timestamp(), 1_000);
}

#[test]
fn changed_file_alone_is_uploaded() {
    let prior = ShaFile::at(0);
    let first = get_sha_diff(&prior, scan_two_files(b"x", b"y", 1_000));
    let baseline = merge_diff_old(prior, &first);

    let diff = get_sha_diff(&baseline, scan_two_files(b"z", b"y", 70_000));
    assert_eq!(diff.len(), 1);
    assert_eq!(digest(&diff, "d/a.txt").unwrap(), Z);
    assert!(digest(&diff, "d/b.txt").is_none());

    let planned = plan_uploads_tagged(&diff, "p", "t");
    assert_eq!(planned.len(), 1);
    assert_eq!(planned[0].path, "d/a.txt");
    assert_eq!(planned[0].remote_name, "p/t/d/a.txt");

    let merged = merge_diff_old(baseline, &diff);
    assert_eq!(digest(&merged, "d/a.txt").unwrap(), Z);
    assert_eq!(digest(&merged, "d/b.txt").unwrap(), Y);
    assert_eq!(merged.timestamp(), 70_000);
}

#[test]
fn unchanged_rescan_uploads_nothing() {
    let prior = ShaFile::at(0);
    let first = get_sha_diff(&prior, scan_two_files(b"x", b"y", 1_000));
    let baseline = merge_diff_old(prior, &first);
    let again = get_sha_diff(&baseline, scan_two_files(b"x", b"y", 2_000));
    assert_eq!(again.len(), 0);
    assert_eq!(plan_uploads_tagged(&again, "p", "t").len(), 0);
}

#[test]
fn excluded_paths_never_reach_the_snapshot() {
    let rules = IgnoreFilter::build(
        "/t",
        &RuleSource::Lines(vec!["*.log".to_string()]),
        &RuleSource::Lines(vec!["build/".to_string(), ".sandman_history".to_string()]),
    );
    let mut scan = Scan::new("/t".to_string(), rules, 5);
    assert_eq!(scan.next_directory().unwrap(), "/t");
    assert_eq!(scan.visit("app.log".to_string(), false), Visit::Skip);
    assert_eq!(scan.visit(".sandman_history".to_string(), false), Visit::Skip);
    assert_eq!(scan.visit("build".to_string(), true), Visit::Skip);
    assert_eq!(scan.visit("src".to_string(), true), Visit::Descend);
    assert_eq!(scan.visit("notes.txt".to_string(), false), Visit::Read);
    assert_eq!(scan.next_file().unwrap(), "/t/notes.txt");
    assert!(scan.record(b"x"));
    assert!(scan.next_file().is_none());
    assert_eq!(scan.next_directory().unwrap(), "/t/src");
    assert_eq!(scan.visit("debug.log".to_string(), false), Visit::Skip);
    assert_eq!(scan.visit("main.rs".to_string(), false), Visit::Read);
    assert_eq!(scan.next_file().unwrap(), "/t/src/main.rs");
    assert!(scan.record(b"y"));
    assert!(scan.next_directory().is_none());
    let snapshot = scan.finish();
    assert_eq!(snapshot.len(), 2);
    assert_eq!(digest(&snapshot, "/t/notes.txt").unwrap(), X);
    assert_eq!(digest(&snapshot, "/t/src/main.rs").unwrap(), Y);
    assert!(digest(&snapshot, "/t/app.log").is_none());
    assert!(digest(&snapshot, "/t/src/debug.log").is_none());
}

#[test]
fn cleanable_target_deletes_uploaded_file() {
    let diff = get_sha_diff(&ShaFile::at(0), scan_two_files(b"x", b"y", 1));
    let planned = plan_uploads_tagged(&diff, "p", "t");
    let outcomes: Vec<bool> = planned.iter().map(|f| f.path == "d/a.txt").collect();
    let uploaded = collect_uploaded(&planned, &outcomes);
    assert_eq!(uploaded.len(), 1);
    assert_eq!(cleanup_list(true, &uploaded), vec!["d/a.txt".to_string()]);
    assert!(cleanup_list(false, &uploaded).is_empty());
}

#[test]
fn planned_cycle_uploads_the_change_and_keeps_the_baseline() {
    let prior = merge_diff_old(ShaFile::at(0), &get_sha_diff(&ShaFile::at(0), scan_two_files(b"x", b"y", 1_000)));
    let plan = sandman::cycle::plan_cycle(prior, scan_two_files(b"z", b"y", 70_000), "prefix", 0);
    assert_eq!(plan.change_set.len(), 1);
    assert_eq!(digest(&plan.change_set, "d/a.txt").unwrap(), Z);
    assert_eq!(plan.uploads.len(), 1);
    assert_eq!(plan.uploads[0].remote_name, "prefix/1970-01-01--00-00-00/d/a.txt");
    assert_eq!(digest(&plan.merged, "d/a.txt").unwrap(), Z);
    assert_eq!(digest(&plan.merged, "d/b.txt").unwrap(), Y);
    assert_eq!(plan.merged.timestamp(), 70_000);
}
