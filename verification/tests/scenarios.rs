use dropin_cfg::error::CfgError;
use dropin_cfg::new;
use dropin_cfg::snapshot::{FsSnapshot, Node, SourceFile};

fn file(path: &str, text: &str) -> (String, Node) {
    (path.to_string(), Node::File(text.to_string()))
}

fn dir(path: &str, files: &[(&str, &str)]) -> (String, Node) {
    let listed = files
        .iter()
        .map(|(name, text)| SourceFile { path: format!("{}/{}", path, name), text: text.to_string() })
        .collect();
    (path.to_string(), Node::Dir(listed))
}

#[test]
fn nothing_on_disk_gives_an_empty_configuration() {
    let fs = FsSnapshot { nodes: vec![] };
    let cfg = new("app").build_config(&fs).unwrap();
    assert!(cfg.is_empty());
    assert!(!cfg.contains_key("port"));
}

#[test]
fn dropin_overrides_main_file() {
    let fs = FsSnapshot {
        nodes: vec![
            file("/etc/app.toml", "port=80"),
            dir("/run/app.d", &[("10-override.toml", "port=8080")]),
        ],
    };
    let cfg = new("app").build_config(&fs).unwrap();
    assert_eq!(cfg.get_int("port"), Ok(8080));
}

#[test]
fn main_file_alone_is_read() {
    let fs = FsSnapshot { nodes: vec![file("/etc/app.toml", "port=80")] };
    let cfg = new("app").build_config(&fs).unwrap();
    assert_eq!(cfg.get_int("port"), Ok(80));
    assert!(!cfg.is_empty());
}

#[test]
fn dropin_without_main_file() {
    let fs = FsSnapshot { nodes: vec![dir("/etc/app.d", &[("a.ini", "level=info")])] };
    let cfg = new("app").build_config(&fs).unwrap();
    assert_eq!(cfg.get_string("level"), Ok("info".to_string()));
}

#[test]
fn unknown_extension_is_read_as_ini() {
    let fs = FsSnapshot { nodes: vec![dir("/etc/app.d", &[("extra.cfg", "x=1")])] };
    let cfg = new("app").build_config(&fs).unwrap();
    assert_eq!(cfg.get_string("x"), Ok("1".to_string()));
    assert_eq!(cfg.get_int("x"), Ok(1));
}

#[test]
fn missing_key_is_reported() {
    let fs = FsSnapshot { nodes: vec![file("/etc/app.toml", "port=80")] };
    let cfg = new("app").build_config(&fs).unwrap();
    assert_eq!(cfg.get_string("missing"), Err(CfgError::KeyNotFound { key: "missing".to_string() }));
    assert!(cfg.get("missing").is_err());
}
