use s_backup::{
    compression_outcome, tar_args, validate_config, Action, Backup, Config, ConfigError, Cycle,
    CycleError, Event, JobSchedule, RemoteEntry, Stage, Timestamp, S3,
};

fn file(path: &str) -> RemoteEntry {
    RemoteEntry { path: path.to_string(), size: 1, is_file: true }
}

fn hashed() -> Event {
    Event::Hashed {
        suffix: "1234567".to_string(),
        at: Timestamp::from_clock(2024, 1, 6, 0, 0, 0).unwrap(),
    }
}

fn web_listing() -> Vec<RemoteEntry> {
    (1..=5)
        .map(|i| file(&format!("backup-web-2024010{}T000000-aaaaaa{}.tar.zst", i, i)))
        .collect()
}

#[test]
fn exit_status_policy() {
    assert_eq!(compression_outcome(Some(0)), Ok(()));
    assert_eq!(compression_outcome(Some(1)), Ok(()));
    assert_eq!(compression_outcome(Some(2)), Err(CycleError::CompressionFailed));
    assert_eq!(compression_outcome(None), Err(CycleError::CompressionFailed));
}

#[test]
fn full_cycle_uploads_then_prunes() {
    let mut c = Cycle::new("web", 3);
    assert!(matches!(c.action(), Action::List));
    assert!(matches!(c.advance(Event::Listed(web_listing())), Action::Compress));
    assert!(matches!(c.advance(Event::ArchiverExited(Some(1))), Action::Hash));
    let name = "backup-web-20240106T000000-1234567.tar.zst".to_string();
    match c.advance(hashed()) {
        Action::Rename(n) => assert_eq!(n, name),
        other => panic!("unexpected {:?}", other),
    }
    match c.advance(Event::Renamed) {
        Action::Upload(p) => assert_eq!(p, format!("/{}", name)),
        other => panic!("unexpected {:?}", other),
    }
    match c.advance(Event::Uploaded) {
        Action::Remove(ps) => assert_eq!(
            ps,
            vec![
                "backup-web-20240103T000000-aaaaaa3.tar.zst".to_string(),
                "backup-web-20240102T000000-aaaaaa2.tar.zst".to_string(),
                "backup-web-20240101T000000-aaaaaa1.tar.zst".to_string(),
            ]
        ),
        other => panic!("unexpected {:?}", other),
    }
    assert!(matches!(c.advance(Event::Removed), Action::Finish));
    assert_eq!(c.stage, Stage::Done);
    let r = c.result().unwrap();
    assert!(r.success);
    assert_eq!(r.job_name, "web");
    assert_eq!(r.uploaded_path, Some(format!("/{}", name)));
    assert_eq!(r.error, None);
}

#[test]
fn nothing_to_prune_finishes_after_upload() {
    let mut c = Cycle::new("web", 7);
    c.advance(Event::Listed(web_listing()));
    c.advance(Event::ArchiverExited(Some(0)));
    c.advance(hashed());
    c.advance(Event::Renamed);
    assert!(matches!(c.advance(Event::Uploaded), Action::Finish));
    assert_eq!(c.stage, Stage::Done);
}

#[test]
fn compression_failure_has_no_remote_effects() {
    let mut c = Cycle::new("web", 1);
    c.advance(Event::Listed(web_listing()));
    assert!(matches!(c.advance(Event::ArchiverExited(Some(2))), Action::Finish));
    assert_eq!(c.stage, Stage::Failed(CycleError::CompressionFailed));
    for ev in [hashed(), Event::Renamed, Event::Uploaded, Event::Removed] {
        assert!(matches!(c.advance(ev), Action::Finish));
    }
    assert_eq!(c.stage, Stage::Failed(CycleError::CompressionFailed));
    let r = c.result().unwrap();
    assert!(!r.success);
    assert_eq!(r.uploaded_path, None);
    assert_eq!(r.error, Some(CycleError::CompressionFailed));
}

#[test]
fn upload_failure_skips_pruning() {
    let mut c = Cycle::new("web", 1);
    c.advance(Event::Listed(web_listing()));
    c.advance(Event::ArchiverExited(Some(0)));
    c.advance(hashed());
    c.advance(Event::Renamed);
    assert!(matches!(c.advance(Event::StageFailed), Action::Finish));
    assert_eq!(c.stage, Stage::Failed(CycleError::UploadFailed));
    assert_eq!(c.result().unwrap().uploaded_path, None);
}

#[test]
fn prune_failure_keeps_upload() {
    let mut c = Cycle::new("web", 1);
    c.advance(Event::Listed(web_listing()));
    c.advance(Event::ArchiverExited(Some(0)));
    c.advance(hashed());
    c.advance(Event::Renamed);
    c.advance(Event::Uploaded);
    c.advance(Event::StageFailed);
    let r = c.result().unwrap();
    assert_eq!(r.error, Some(CycleError::PruneFailed));
    assert!(r.uploaded_path.is_some());
}

#[test]
fn stray_event_changes_nothing() {
    let mut c = Cycle::new("web", 2);
    assert!(matches!(c.advance(Event::Uploaded), Action::List));
    assert_eq!(c.stage, Stage::Listing);
    assert!(c.result().is_none());
    assert!(matches!(c.advance(Event::StageFailed), Action::Finish));
    assert_eq!(c.stage, Stage::Failed(CycleError::ListFailed));
}

#[test]
fn tar_arguments() {
    let ex = vec!["*.log".to_string(), "cache".to_string()];
    assert_eq!(
        tar_args("/tmp/x/cpsd_tmp.tar.zst", &ex, "/srv/web"),
        vec![
            "--zstd", "-cf", "/tmp/x/cpsd_tmp.tar.zst", "--exclude=*.log", "--exclude=cache",
            "-C", "/srv/web", "."
        ]
    );
}

fn job(name: &str, keep: usize) -> Backup {
    Backup {
        name: name.to_string(),
        path: "/srv".to_string(),
        exclude: vec![],
        interval: Backup::default_interval(),
        keep,
    }
}

fn store() -> S3 {
    S3 {
        bucket: "b".to_string(),
        region: "r".to_string(),
        endpoint: "http://localhost".to_string(),
        access_key_id: "k".to_string(),
        secret_access_key: "SECRET-REDACTED".to_string(),
        root: S3::default_root(),
    }
}

#[test]
fn config_defaults() {
    assert_eq!(Backup::default_interval(), 86400);
    assert_eq!(Backup::default_keep(), 7);
    assert_eq!(S3::default_root(), "/backup");
}

#[test]
fn config_validation() {
    let ok = Config { backup: vec![job("web", 3), job("db", 1)], s3: store() };
    assert_eq!(validate_config(&ok), Ok(()));
    let dup = Config { backup: vec![job("web", 3), job("web", 2)], s3: store() };
    assert_eq!(validate_config(&dup), Err(ConfigError::DuplicateName));
    let dash = Config { backup: vec![job("my-web", 3)], s3: store() };
    assert_eq!(validate_config(&dash), Err(ConfigError::NameHasDelimiter));
    let zero = Config { backup: vec![job("web", 0)], s3: store() };
    assert_eq!(validate_config(&zero), Err(ConfigError::ZeroKeep));
    let empty = Config { backup: vec![], s3: store() };
    assert_eq!(validate_config(&empty), Ok(()));
}

#[test]
fn schedule_sleeps_interval_after_any_outcome() {
    let j = job("web", 2);
    let mut s = JobSchedule::for_job(&j);
    let mut ok = s.start_cycle("web");
    ok.advance(Event::Listed(vec![]));
    ok.advance(Event::ArchiverExited(Some(0)));
    ok.advance(hashed());
    ok.advance(Event::Renamed);
    ok.advance(Event::Uploaded);
    assert_eq!(s.record(&ok.result().unwrap()), 86400);
    let mut bad = s.start_cycle("web");
    bad.advance(Event::StageFailed);
    assert_eq!(s.record(&bad.result().unwrap()), 86400);
    assert_eq!(s.cycles, 2);
    assert_eq!(s.failures, 1);
}
