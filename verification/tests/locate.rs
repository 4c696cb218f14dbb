use dropin_cfg::error::CfgError;
use dropin_cfg::locate::{dropin_dir, find_conf, find_dropins, get_default_dirs, plan_probes};
use dropin_cfg::path::{extension, join_path, with_extension};
use dropin_cfg::snapshot::{FsSnapshot, Node, SourceFile};

fn text_file(path: &str, text: &str) -> (String, Node) {
    (path.to_string(), Node::File(text.to_string()))
}

fn listing(path: &str, names: &[&str]) -> (String, Node) {
    let listed = names
        .iter()
        .map(|name| SourceFile { path: format!("{}/{}", path, name), text: String::new() })
        .collect();
    (path.to_string(), Node::Dir(listed))
}

fn strings(items: &[&str]) -> Vec<String> {
    items.iter().map(|s| s.to_string()).collect()
}

fn paths_of(files: &[SourceFile]) -> Vec<String> {
    files.iter().map(|f| f.path.clone()).collect()
}

#[test]
fn default_dirs_without_project() {
    assert_eq!(get_default_dirs(None), vec!["/etc", "/run", "/usr/etc", "/usr/share", "/usr/lib"]);
}

#[test]
fn default_dirs_with_project() {
    assert_eq!(
        get_default_dirs(Some("suite".to_string())),
        vec![
            "/etc",
            "/etc/suite",
            "/run",
            "/run/suite",
            "/usr/etc",
            "/usr/etc/suite",
            "/usr/share",
            "/usr/share/suite",
            "/usr/lib",
            "/usr/lib/suite",
        ]
    );
}

#[test]
fn join_and_extension_helpers() {
    assert_eq!(join_path("/etc", "app.d"), "/etc/app.d");
    assert_eq!(with_extension("app", "toml"), "app.toml");
    assert_eq!(extension("/etc/app.d/10-net.toml"), "toml");
    assert_eq!(extension("/etc/app.d/archive.tar.gz"), "gz");
    assert_eq!(extension("/etc/app.d/README"), "");
    assert_eq!(extension("/etc/app.d/.hidden"), "");
    assert_eq!(extension("/etc/app.d/.hidden.ini"), "ini");
    assert_eq!(extension("/etc/app.d/plain"), "");
    assert_eq!(extension("/etc/app.d/trailing."), "");
    assert_eq!(extension(".toml"), "");
    assert_eq!(extension("a.toml"), "toml");
    assert_eq!(extension(""), "");
}

#[test]
fn main_file_comes_from_the_first_directory_that_has_one() {
    let fs = FsSnapshot {
        nodes: vec![text_file("/usr/lib/app.toml", "a=1"), text_file("/run/app.toml", "a=2")],
    };
    let found = find_conf(&fs, &get_default_dirs(None), "app", &strings(&["ini", "toml"])).unwrap();
    assert_eq!(found.path, "/run/app.toml");
    assert_eq!(found.text, "a=2");
}

#[test]
fn main_file_follows_the_extension_order_within_a_directory() {
    let fs = FsSnapshot {
        nodes: vec![text_file("/etc/app.toml", "a=1"), text_file("/etc/app.ini", "a=2")],
    };
    let dirs = strings(&["/etc"]);
    let found = find_conf(&fs, &dirs, "app", &strings(&["ini", "toml"])).unwrap();
    assert_eq!(found.path, "/etc/app.ini");
    let found = find_conf(&fs, &dirs, "app", &strings(&["toml", "ini"])).unwrap();
    assert_eq!(found.path, "/etc/app.toml");
}

#[test]
fn directory_order_beats_extension_order() {
    let fs = FsSnapshot {
        nodes: vec![text_file("/run/app.ini", "a=1"), text_file("/etc/app.toml", "a=2")],
    };
    let found = find_conf(&fs, &strings(&["/etc", "/run"]), "app", &strings(&["ini", "toml"])).unwrap();
    assert_eq!(found.path, "/etc/app.toml");
}

#[test]
fn a_file_further_down_does_not_change_the_main_file() {
    let dirs = strings(&["/etc", "/run"]);
    let exts = strings(&["toml"]);
    let alone = FsSnapshot { nodes: vec![text_file("/etc/app.toml", "a=1")] };
    let both = FsSnapshot {
        nodes: vec![text_file("/run/app.toml", "a=2"), text_file("/etc/app.toml", "a=1")],
    };
    let first = find_conf(&alone, &dirs, "app", &exts).unwrap();
    let second = find_conf(&both, &dirs, "app", &exts).unwrap();
    assert_eq!(first.path, second.path);
    assert_eq!(first.text, second.text);
}

#[test]
fn no_main_file_is_no_error() {
    let fs = FsSnapshot { nodes: vec![text_file("/etc/other.toml", "a=1")] };
    assert!(find_conf(&fs, &get_default_dirs(None), "app", &strings(&["toml"])).is_none());
    assert!(find_conf(&fs, &get_default_dirs(None), "other", &strings(&[])).is_none());
    assert!(find_conf(&fs, &strings(&[]), "other", &strings(&["toml"])).is_none());
}

#[test]
fn a_directory_is_no_main_file() {
    let fs = FsSnapshot {
        nodes: vec![listing("/etc/app.toml", &[]), text_file("/run/app.toml", "a=1")],
    };
    let found = find_conf(&fs, &get_default_dirs(None), "app", &strings(&["toml"])).unwrap();
    assert_eq!(found.path, "/run/app.toml");
}

#[test]
fn a_single_extension_is_the_only_one_tried() {
    let fs = FsSnapshot {
        nodes: vec![text_file("/etc/app.ini", "a=1"), text_file("/usr/lib/app.json", "{}")],
    };
    let found = find_conf(&fs, &get_default_dirs(None), "app", &strings(&["json"])).unwrap();
    assert_eq!(found.path, "/usr/lib/app.json");
}

#[test]
fn the_first_listing_of_a_path_counts() {
    let fs = FsSnapshot {
        nodes: vec![text_file("/etc/app.toml", "a=1"), text_file("/etc/app.toml", "a=2")],
    };
    match fs.lookup(&"/etc/app.toml".to_string()) {
        Some(Node::File(text)) => assert_eq!(text, "a=1"),
        other => panic!("unexpected node {:?}", other),
    }
    assert!(fs.lookup(&"/etc/app.ini".to_string()).is_none());
}

#[test]
fn short_dropin_directory_is_taken_before_the_long_one() {
    let fs = FsSnapshot {
        nodes: vec![listing("/etc/app.conf.d", &["b.toml"]), listing("/etc/app.d", &["a.toml"])],
    };
    let (path, _) = dropin_dir(&fs, "/etc", "app").unwrap();
    assert_eq!(path, "/etc/app.d");
    let files = find_dropins(&fs, &strings(&["/etc"]), "app").unwrap();
    assert_eq!(paths_of(&files), vec!["/etc/app.d/a.toml"]);
}

#[test]
fn long_dropin_directory_is_taken_where_the_short_one_is_missing() {
    let fs = FsSnapshot {
        nodes: vec![listing("/etc/app.conf.d", &["b.toml"]), text_file("/etc/app.d", "not a directory")],
    };
    let files = find_dropins(&fs, &strings(&["/etc"]), "app").unwrap();
    assert_eq!(paths_of(&files), vec!["/etc/app.conf.d/b.toml"]);
    assert!(dropin_dir(&fs, "/run", "app").is_none());
}

#[test]
fn dropins_come_lowest_priority_first_and_in_listing_order() {
    let fs = FsSnapshot {
        nodes: vec![
            listing("/etc/app.d", &["10-a.toml", "20-b.toml"]),
            listing("/run/app.conf.d", &["05-c.ini"]),
            listing("/usr/lib/app.d", &["99-z.json", "00-y.json"]),
        ],
    };
    let files = find_dropins(&fs, &get_default_dirs(None), "app").unwrap();
    assert_eq!(
        paths_of(&files),
        vec![
            "/usr/lib/app.d/99-z.json",
            "/usr/lib/app.d/00-y.json",
            "/run/app.conf.d/05-c.ini",
            "/etc/app.d/10-a.toml",
            "/etc/app.d/20-b.toml",
        ]
    );
}

#[test]
fn missing_dropin_directories_give_no_files() {
    let fs = FsSnapshot { nodes: vec![text_file("/etc/app.toml", "a=1")] };
    let files = find_dropins(&fs, &get_default_dirs(None), "app").unwrap();
    assert!(files.is_empty());
}

#[test]
fn unreadable_dropin_directory_is_an_error() {
    let fs = FsSnapshot {
        nodes: vec![
            listing("/etc/app.d", &["10-a.toml"]),
            ("/run/app.d".to_string(), Node::Unreadable),
        ],
    };
    let err = find_dropins(&fs, &get_default_dirs(None), "app").unwrap_err();
    assert_eq!(err, CfgError::DropinDirUnreadable { path: "/run/app.d".to_string() });
}

#[test]
fn probe_plan_lists_every_path_that_is_looked_at() {
    let plan = plan_probes(&strings(&["/etc", "/run"]), "app", &strings(&["ini", "toml"]));
    assert_eq!(
        plan.main_candidates,
        vec![vec!["/etc/app.ini", "/etc/app.toml"], vec!["/run/app.ini", "/run/app.toml"]]
    );
    assert_eq!(
        plan.dropin_dirs,
        vec![
            ("/etc/app.d".to_string(), "/etc/app.conf.d".to_string()),
            ("/run/app.d".to_string(), "/run/app.conf.d".to_string()),
        ]
    );
}
