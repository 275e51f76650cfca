use dcw::workspace::{
    path_hash, runtime_dir, watcher_pid_file, workspace_folder, workspace_id, workspace_key_from,
    Environment, WorkspaceError,
};
use std::collections::hash_map::DefaultHasher;
use std::hash::{Hash, Hasher};

fn env(cwd: &str) -> Environment {
    Environment { current_dir: Some(cwd.to_string()), xdg_runtime_dir: None, uid: 1000 }
}

fn digest(path: &str) -> String {
    let mut hasher = DefaultHasher::new();
    path.hash(&mut hasher);
    format!("{:08x}", hasher.finish() & 0xFFFF_FFFF)
}

#[test]
fn workspace_id_contains_basename_and_hash() {
    let id = workspace_id(&env("/home/user/project")).unwrap();
    assert!(id.starts_with("dev-"), "expected dev- prefix, got: {id}");
    let parts: Vec<&str> = id.rsplitn(2, '-').collect();
    assert_eq!(parts[0].len(), 8, "expected 8-char hash suffix, got: {id}");
    assert!(
        parts[0].chars().all(|c| c.is_ascii_hexdigit()),
        "expected hex hash suffix, got: {id}"
    );
}

#[test]
fn path_hash_is_deterministic() {
    let h1 = path_hash("/foo/bar");
    let h2 = path_hash("/foo/bar");
    assert_eq!(h1, h2);
}

#[test]
fn path_hash_differs_for_different_paths() {
    let h1 = path_hash("/home/user/foo/app");
    let h2 = path_hash("/home/user/bar/app");
    assert_ne!(h1, h2);
}

#[test]
fn workspace_folder_is_absolute() {
    let folder = workspace_folder(&env("/home/user/project")).unwrap();
    assert!(
        std::path::PathBuf::from(&folder).is_absolute(),
        "expected absolute path, got: {folder}"
    );
    assert_eq!(folder, "/home/user/project");
}

#[test]
fn path_hash_is_the_low_half_of_the_standard_hash() {
    for path in ["/foo/bar", "/", "", "/home/user/foo/app", "/tmp/\u{e9}t\u{e9}"] {
        assert_eq!(path_hash(path), digest(path), "{path:?}");
    }
}

#[test]
fn workspace_id_is_name_and_digest() {
    let id = workspace_id(&env("/home/user/project")).unwrap();
    assert_eq!(id, format!("dev-project-{}", digest("/home/user/project")));
    let id = workspace_id(&env("/srv/my-app/")).unwrap();
    assert_eq!(id, format!("dev-my-app-{}", digest("/srv/my-app/")));
}

#[test]
fn workspace_id_depends_on_the_path_only() {
    let a = Environment {
        current_dir: Some("/a/b".to_string()),
        xdg_runtime_dir: Some("/run/user/7".to_string()),
        uid: 7,
    };
    assert_eq!(workspace_id(&a), workspace_id(&env("/a/b")));
    assert_ne!(workspace_id(&env("/x/app")), workspace_id(&env("/y/app")));
}

#[test]
fn workspace_id_needs_a_named_directory() {
    assert_eq!(workspace_id(&env("/")), Err(WorkspaceError::NoBasename));
    assert_eq!(workspace_id(&env("/a/..")), Err(WorkspaceError::NoBasename));
    let lost = Environment { current_dir: None, xdg_runtime_dir: None, uid: 0 };
    assert_eq!(workspace_id(&lost), Err(WorkspaceError::NoCurrentDir));
    assert_eq!(workspace_folder(&lost), Err(WorkspaceError::NoCurrentDir));
    assert_eq!(runtime_dir(&lost), Err(WorkspaceError::NoCurrentDir));
    assert_eq!(watcher_pid_file(&lost), Err(WorkspaceError::NoCurrentDir));
    assert_eq!(runtime_dir(&env("/")), Err(WorkspaceError::NoBasename));
}

#[test]
fn runtime_dir_prefers_the_user_runtime_directory() {
    let id = workspace_id(&env("/home/user/project")).unwrap();
    let mut e = env("/home/user/project");
    assert_eq!(runtime_dir(&e), Ok(format!("/tmp/dcw-1000/dcw/{id}")));
    assert_eq!(watcher_pid_file(&e), Ok(format!("/tmp/dcw-1000/dcw/{id}/watch.pid")));
    e.xdg_runtime_dir = Some(String::new());
    e.uid = 0;
    assert_eq!(runtime_dir(&e), Ok(format!("/tmp/dcw-0/dcw/{id}")));
    e.xdg_runtime_dir = Some("/run/user/1000".to_string());
    assert_eq!(runtime_dir(&e), Ok(format!("/run/user/1000/dcw/{id}")));
    assert_eq!(watcher_pid_file(&e), Ok(format!("/run/user/1000/dcw/{id}/watch.pid")));
    e.xdg_runtime_dir = Some("/run/user/1000/".to_string());
    e.uid = 4294967295;
    assert_eq!(runtime_dir(&e), Ok(format!("/run/user/1000/dcw/{id}")));
    e.xdg_runtime_dir = None;
    assert_eq!(runtime_dir(&e), Ok(format!("/tmp/dcw-4294967295/dcw/{id}")));
}

#[test]
fn a_key_is_put_together_from_name_and_digest() {
    assert_eq!(workspace_key_from("project", "0a1b2c3d"), "dev-project-0a1b2c3d");
    assert_eq!(workspace_key_from("my-app", "ffffffff"), "dev-my-app-ffffffff");
    assert_eq!(workspace_key_from("", ""), "dev--");
}
