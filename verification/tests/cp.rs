use std::path::PathBuf;

use arc::cp::{find_run_by_prefix, parse_direction, split_run_path, CopyDirection};
use arc::runs::RunInfo;
use arc::sandbox::{reconnect_plan, Reconnect, SandboxRecord};

#[test]
fn parse_direction_download() {
    let dir = parse_direction("abc123:/some/file.txt", "./local.txt").unwrap();
    match dir {
        CopyDirection::Download {
            run_prefix,
            remote_path,
            local_path,
        } => {
            assert_eq!(run_prefix, "abc123");
            assert_eq!(remote_path, "/some/file.txt");
            assert_eq!(local_path, PathBuf::from("./local.txt"));
        }
        _ => panic!("Expected Download"),
    }
}

#[test]
fn parse_direction_upload() {
    let dir = parse_direction("./local.txt", "abc123:/some/file.txt").unwrap();
    match dir {
        CopyDirection::Upload {
            local_path,
            run_prefix,
            remote_path,
        } => {
            assert_eq!(local_path, PathBuf::from("./local.txt"));
            assert_eq!(run_prefix, "abc123");
            assert_eq!(remote_path, "/some/file.txt");
        }
        _ => panic!("Expected Upload"),
    }
}

#[test]
fn parse_direction_absolute_local_path() {
    let dir = parse_direction("abc123:src/main.rs", "/tmp/main.rs").unwrap();
    match dir {
        CopyDirection::Download {
            run_prefix,
            remote_path,
            local_path,
        } => {
            assert_eq!(run_prefix, "abc123");
            assert_eq!(remote_path, "src/main.rs");
            assert_eq!(local_path, PathBuf::from("/tmp/main.rs"));
        }
        _ => panic!("Expected Download"),
    }
}

#[test]
fn parse_direction_both_sandbox_errors() {
    let result = parse_direction("abc:path", "def:path");
    assert!(result.is_err());
}

#[test]
fn parse_direction_neither_sandbox_errors() {
    let result = parse_direction("./file.txt", "/tmp/file.txt");
    assert!(result.is_err());
}

#[test]
fn parse_direction_relative_upload() {
    let dir = parse_direction("../local.txt", "abc123:remote.txt").unwrap();
    match dir {
        CopyDirection::Upload {
            local_path,
            run_prefix,
            remote_path,
        } => {
            assert_eq!(local_path, PathBuf::from("../local.txt"));
            assert_eq!(run_prefix, "abc123");
            assert_eq!(remote_path, "remote.txt");
        }
        _ => panic!("Expected Upload"),
    }
}

fn run(id: &str) -> RunInfo {
    RunInfo {
        run_id: id.into(),
        dir_name: format!("d-{id}"),
        pipeline_name: "p".into(),
        status: "success".into(),
        start_time: String::new(),
        labels: Vec::new(),
        path: PathBuf::from(format!("/logs/{id}")),
        is_orphan: false,
    }
}

#[test]
fn find_run_by_prefix_no_match() {
    let runs = vec![run("abc123")];
    let err = find_run_by_prefix(&runs, "zzz").unwrap_err();
    assert_eq!(err, "No run found matching prefix 'zzz'");
}

#[test]
fn find_run_by_prefix_single_match() {
    let runs = vec![run("abc123-full-id"), run("other")];
    assert_eq!(find_run_by_prefix(&runs, "abc123").unwrap(), PathBuf::from("/logs/abc123-full-id"));
}

#[test]
fn find_run_by_prefix_ambiguous() {
    let runs = vec![run("abc-111"), run("abc-222")];
    let err = find_run_by_prefix(&runs, "abc").unwrap_err();
    assert!(err.contains("Ambiguous"));
    assert_eq!(err, "Ambiguous prefix 'abc': 2 runs match: abc-111, abc-222");
}

#[test]
fn split_run_path_cases() {
    assert_eq!(split_run_path("run:a:b"), Some(("run".to_string(), "a:b".to_string())));
    assert_eq!(split_run_path("./x:y"), None);
    assert_eq!(split_run_path("nocolon"), None);
}

fn record(provider: &str) -> SandboxRecord {
    SandboxRecord {
        provider: provider.to_string(),
        working_directory: "/work".to_string(),
        identifier: None,
        host_working_directory: None,
        container_mount_point: None,
        data_host: None,
    }
}

#[test]
fn reconnect_plan_by_provider() {
    assert!(matches!(reconnect_plan(&record("local")), Ok(Reconnect::Local { working_directory }) if working_directory == "/work"));
    assert_eq!(
        reconnect_plan(&record("docker")).err(),
        Some("Docker sandbox record missing host_working_directory".to_string())
    );
    let mut docker = record("docker");
    docker.host_working_directory = Some("/host".to_string());
    assert!(matches!(
        reconnect_plan(&docker),
        Ok(Reconnect::Docker { host_working_directory, container_mount_point })
            if host_working_directory == "/host" && container_mount_point == "/workspace"
    ));
    assert_eq!(
        reconnect_plan(&record("daytona")).err(),
        Some("Daytona sandbox record missing identifier (sandbox name)".to_string())
    );
    assert_eq!(
        reconnect_plan(&record("exe")).err(),
        Some("Exe sandbox record missing data_host".to_string())
    );
    assert_eq!(
        reconnect_plan(&record("vm")).err(),
        Some("Unknown sandbox provider: vm".to_string())
    );
}
