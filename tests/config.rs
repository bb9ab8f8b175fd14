use sandman::config::{Config, DirectoriesConfig, SandmanDirectory};
use sandman::config_app::{on_bucket_set, on_directory_set, on_id_set, on_prefix_set, Message, SandmanConfigApp};
use sandman::schedule::GatherArgs;

fn dir(name: &str, interval: u64) -> SandmanDirectory {
    SandmanDirectory {
        name: name.to_string(),
        directory: format!("/data/{}", name),
        interval,
        start_time: 7,
        prefix: format!("{}-prefix", name),
        bucket: "bucket".to_string(),
        cleanable: interval > 100,
    }
}

#[test]
fn targets_follow_the_configured_directories() {
    let config = Config {
        aws: None,
        directories: DirectoriesConfig { backups: vec![dir("one", 10), dir("two", 180)] },
    };
    let targets = config.targets();
    assert_eq!(targets.len(), 2);
    assert_eq!(targets[0].name, "one");
    assert_eq!(targets[0].local_directory, "/data/one");
    assert_eq!(targets[0].bucket_prefix, "one-prefix");
    assert_eq!(targets[0].interval, 10);
    assert_eq!(targets[0].start_time, 7);
    assert!(!targets[0].cleanable);
    assert_eq!(targets[1].name, "two");
    assert!(targets[1].cleanable);
}

#[test]
fn one_shot_target() {
    let t = GatherArgs::one_shot("/d".to_string(), "b".to_string(), "p".to_string());
    assert_eq!(t.name, "OneShotter");
    assert_eq!(t.local_directory, "/d");
    assert_eq!(t.bucket, "b");
    assert_eq!(t.bucket_prefix, "p");
    assert_eq!((t.interval, t.start_time, t.cleanable), (0, 0, false));
}

#[test]
fn editor_collects_a_target() {
    let mut app = SandmanConfigApp::new();
    assert_eq!(app.title(), "Sandman Configurator");
    assert_eq!(app.aws_access_key_id, "AWS_ACCESS_KEY");
    app.update(on_id_set("AKID".to_string()));
    assert_eq!(app.aws_access_key_id, "AKID");
    app.update(on_directory_set("/home".to_string()));
    app.update(on_prefix_set("pre".to_string()));
    app.update(on_bucket_set("bkt".to_string()));
    app.update(Message::Submitted);
    assert_eq!(app.directories.len(), 1);
    assert_eq!(app.directories[0].directory, "/home");
    assert_eq!(app.directories[0].prefix, "pre");
    assert_eq!(app.directories[0].bucket, "bkt");
    app.update(Message::DeleteItem);
    assert_eq!(app.directories.len(), 1);
}
