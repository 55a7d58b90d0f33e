use daas::config::{Config, ServicePath};

#[test]
fn test_config_ok() {
    let cfg = Config::new("daas".to_string(), "data".to_string(), "v1".to_string());

    assert_eq!(cfg.get_root_path(), "/api/daas/data/v1".to_string());
}

#[test]
fn test_service_path_root_path_ok() {
    let sp = ServicePath::new("daas".to_string(), "data".to_string(), "v1".to_string());

    assert_eq!(sp.root_path, "/api/daas/data/v1".to_string());
}

#[test]
fn service_path_keeps_its_parts() {
    let sp = ServicePath::new("app".to_string(), "mod".to_string(), "v2".to_string());
    assert_eq!(sp.application, "app");
    assert_eq!(sp.module, "mod");
    assert_eq!(sp.version, "v2");
    assert_eq!(sp.root_path, "/api/app/mod/v2");
}
