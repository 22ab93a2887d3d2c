use lockset::config::AppConfig;

fn some(s: &str) -> Option<String> {
    Some(s.to_string())
}

#[test]
fn config_from_values() {
    let c = AppConfig::from_values(some("postgres://db"), some("04ab"), some("8080")).unwrap();
    assert_eq!(c, AppConfig { database_url: "postgres://db".into(), auth_public_key: "04ab".into(), port: 8080 });
    assert_eq!(c.public_key_bytes(), Some(vec![0x04, 0xab]));
}

#[test]
fn config_reports_first_problem() {
    assert_eq!(AppConfig::from_values(None, None, None), Err("DB_URI must be set".to_string()));
    assert_eq!(AppConfig::from_values(some("u"), None, None), Err("AUTH_PUBLIC_KEY must be set".to_string()));
    assert_eq!(AppConfig::from_values(some("u"), some("k"), None), Err("PORT must be set".to_string()));
    assert_eq!(AppConfig::from_values(some("u"), some("k"), some("70000")), Err("PORT must be a valid u16".to_string()));
    assert_eq!(AppConfig::from_values(some("u"), some("k"), some("http")), Err("PORT must be a valid u16".to_string()));
}

#[test]
fn config_installs_once() {
    let mut slot = None;
    let c = AppConfig::from_values(some("u"), some("zz"), some("1")).unwrap();
    assert_eq!(AppConfig::install(&mut slot, c.clone()), Ok(()));
    assert_eq!(AppConfig::instance(&slot), &c);
    assert_eq!(
        AppConfig::install(&mut slot, c.clone()),
        Err("Configuration has already been loaded".to_string())
    );
    assert_eq!(AppConfig::instance(&slot).public_key_bytes(), None);
}
