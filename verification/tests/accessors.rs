use config::Value;
use dropin_cfg::error::CfgError;
use dropin_cfg::new;
use dropin_cfg::resolved::ResolvedConfig;
use dropin_cfg::snapshot::{FsSnapshot, Node};

fn sample() -> ResolvedConfig {
    let text = "port = 8080\nname = \"demo\"\nverbose = \"yes\"\nlevel = \"info\"\nhosts = [\"a\", \"b\"]\n[net]\nmtu = 1500\n";
    let fs = FsSnapshot { nodes: vec![("/etc/app.toml".to_string(), Node::File(text.to_string()))] };
    new("app").build_config(&fs).unwrap()
}

#[test]
fn raw_value_is_handed_out() {
    let cfg = sample();
    assert_eq!(cfg.get("port").unwrap().clone().into_int().unwrap(), 8080);
    assert_eq!(cfg.get("nothing"), Err(CfgError::KeyNotFound { key: "nothing".to_string() }));
}

#[test]
fn last_entry_of_a_key_is_the_one_found() {
    let cfg = ResolvedConfig::from_entries(vec![
        ("k".to_string(), Value::from(1_i64)),
        ("other".to_string(), Value::from(5_i64)),
        ("k".to_string(), Value::from(2_i64)),
    ]);
    assert_eq!(cfg.get_int("k"), Ok(2));
    assert_eq!(cfg.get_int("other"), Ok(5));
    assert!(cfg.contains_key("k"));
    assert!(!cfg.contains_key("K"));
}

#[test]
fn integer_accessor_converts() {
    let cfg = sample();
    assert_eq!(cfg.get_int("port"), Ok(8080));
    assert_eq!(cfg.get_int("verbose"), Ok(1));
}

#[test]
fn integer_accessor_reports_a_mismatch() {
    let cfg = sample();
    match cfg.get_int("level") {
        Err(CfgError::TypeMismatch { key, message }) => {
            assert_eq!(key, "level");
            assert!(!message.is_empty());
        }
        other => panic!("unexpected outcome {:?}", other),
    }
    assert!(matches!(cfg.get_int("net"), Err(CfgError::TypeMismatch { .. })));
    assert_eq!(cfg.get_int("absent"), Err(CfgError::KeyNotFound { key: "absent".to_string() }));
}

#[test]
fn string_accessor_converts() {
    let cfg = sample();
    assert_eq!(cfg.get_string("name"), Ok("demo".to_string()));
    assert_eq!(cfg.get_string("port"), Ok("8080".to_string()));
    assert!(matches!(cfg.get_string("hosts"), Err(CfgError::TypeMismatch { .. })));
    assert_eq!(cfg.get_string("absent"), Err(CfgError::KeyNotFound { key: "absent".to_string() }));
}

#[test]
fn bool_accessor_converts() {
    let cfg = sample();
    assert_eq!(cfg.get_bool("verbose"), Ok(true));
    assert_eq!(cfg.get_bool("port"), Ok(true));
    assert!(matches!(cfg.get_bool("level"), Err(CfgError::TypeMismatch { .. })));
    assert_eq!(cfg.get_bool("absent"), Err(CfgError::KeyNotFound { key: "absent".to_string() }));
}

#[test]
fn table_accessor_converts() {
    let cfg = sample();
    let table = cfg.get_table("net").unwrap();
    assert_eq!(table.len(), 1);
    assert_eq!(table[0].0, "mtu");
    assert_eq!(table[0].1.clone().into_int().unwrap(), 1500);
    assert!(matches!(cfg.get_table("port"), Err(CfgError::TypeMismatch { .. })));
    assert!(matches!(cfg.get_table("absent"), Err(CfgError::KeyNotFound { .. })));
}

#[test]
fn array_accessor_converts() {
    let cfg = sample();
    let items = cfg.get_array("hosts").unwrap();
    let texts: Vec<String> = items.into_iter().map(|v| v.into_string().unwrap()).collect();
    assert_eq!(texts, vec!["a", "b"]);
    assert!(matches!(cfg.get_array("port"), Err(CfgError::TypeMismatch { .. })));
    assert!(matches!(cfg.get_array("absent"), Err(CfgError::KeyNotFound { .. })));
}

#[test]
fn ini_sections_are_tables() {
    let fs = FsSnapshot {
        nodes: vec![(
            "/etc/app.ini".to_string(),
            Node::File("top=1\n[section]\ninner=2\n".to_string()),
        )],
    };
    let cfg = new("app").build_config(&fs).unwrap();
    assert_eq!(cfg.get_int("top"), Ok(1));
    let table = cfg.get_table("section").unwrap();
    assert_eq!(table.len(), 1);
    assert_eq!(table[0].0, "inner");
    assert!(!cfg.contains_key("inner"));
}

#[test]
fn accessors_leave_the_configuration_as_it_was() {
    let cfg = sample();
    assert!(cfg.get_int("level").is_err());
    assert!(cfg.get_string("absent").is_err());
    assert_eq!(cfg.get_string("level"), Ok("info".to_string()));
    assert_eq!(cfg.get_int("port"), Ok(8080));
}
