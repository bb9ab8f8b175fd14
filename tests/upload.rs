use sandman::snapshot::ShaFile;
use sandman::upload::{
    cleanup_list, collect_uploaded, plan_uploads, remote_key, SandmanUploadedFile,
};

fn file(p: &str, k: &str) -> SandmanUploadedFile {
    SandmanUploadedFile::new(p.to_string(), k.to_string())
}

#[test]
fn remote_key_joins_prefix_tag_and_path() {
    assert_eq!(remote_key("backups", "2024-05-06--07-08-09", "/home/u/a.txt"), "backups/2024-05-06--07-08-09//home/u/a.txt");
    assert_eq!(remote_key("", "t", "a"), "/t/a");
}

#[test]
fn plan_tags_keys_with_the_utc_time() {
    let mut diff = ShaFile::at(0);
    diff.insert("a.txt".to_string(), "d".to_string());
    let planned = plan_uploads(&diff, "pre", 0);
    assert_eq!(planned.len(), 1);
    assert_eq!(planned[0].remote_name, "pre/1970-01-01--00-00-00/a.txt");
    let later = plan_uploads(&diff, "pre", 1_700_000_000);
    assert_eq!(later[0].remote_name, "pre/2023-11-14--22-13-20/a.txt");
    assert_eq!(later[0].path, "a.txt");
}

#[test]
fn failed_upload_is_left_out_and_others_kept() {
    let planned = vec![file("a", "k/a"), file("b", "k/b"), file("c", "k/c")];
    let uploaded = collect_uploaded(&planned, &vec![false, true, true]);
    let paths: Vec<&str> = uploaded.iter().map(|f| f.path.as_str()).collect();
    assert_eq!(paths, vec!["b", "c"]);
    assert_eq!(uploaded[0].remote_name, "k/b");
}

#[test]
fn missing_outcome_counts_as_failure() {
    let planned = vec![file("a", "k/a"), file("b", "k/b")];
    let uploaded = collect_uploaded(&planned, &vec![true]);
    assert_eq!(uploaded.len(), 1);
    assert_eq!(uploaded[0].path, "a");
}

#[test]
fn cleanup_takes_only_uploaded_files() {
    let planned = vec![file("a", "k/a"), file("b", "k/b")];
    let uploaded = collect_uploaded(&planned, &vec![false, true]);
    assert_eq!(cleanup_list(true, &uploaded), vec!["b".to_string()]);
}

#[test]
fn cleanup_of_uncleanable_target_is_empty() {
    let planned = vec![file("a", "k/a")];
    let uploaded = collect_uploaded(&planned, &vec![true]);
    assert!(cleanup_list(false, &uploaded).is_empty());
}

#[test]
fn tag_has_the_sortable_shape() {
    let mut diff = ShaFile::at(0);
    diff.insert("f".to_string(), "d".to_string());
    let planned = plan_uploads(&diff, "p", 1_234_567_890);
    assert_eq!(planned[0].remote_name, "p/2009-02-13--23-31-30/f");
    let tag = &planned[0].remote_name[2..22];
    assert_eq!(tag.len(), 20);
}
