use lynx_mcp::browser::config::LynxConfig;
use lynx_mcp::browser::instance::BrowserInstance;
use lynx_mcp::browser::BrowserManager;
use lynx_mcp::error::LynxError;

fn config() -> LynxConfig {
    LynxConfig {
        chrome_path: "/usr/bin/chromium".to_string(),
        profile_dir: "/tmp/profiles".to_string(),
        headless: true,
    }
}

fn inst(id: &str, handle: u32) -> BrowserInstance<u32> {
    BrowserInstance::new(id.to_string(), "work".to_string(), handle, "2024-01-01T00:00:00+00:00".to_string(), true, false)
}

#[test]
fn empty_manager_has_no_default_instance() {
    let mgr: BrowserManager<u32> = BrowserManager::new(config());
    match mgr.get_instance(&None) {
        Err(LynxError::NoInstance(m)) => assert_eq!(m, "no instances running"),
        _ => panic!("expected NoInstance"),
    }
    assert!(mgr.list_instances(&vec![], &vec![]).is_empty());
}

#[test]
fn created_instance_is_found_by_id_and_as_default() {
    let mut mgr = BrowserManager::new(config());
    assert_eq!(mgr.add_instance(inst("a", 1)), "a");
    assert_eq!(mgr.add_instance(inst("b", 2)), "b");
    assert_eq!(mgr.get_instance(&Some("b".to_string())).unwrap().handle, 2);
    assert_eq!(mgr.get_instance(&None).unwrap().handle, 1);
    match mgr.get_instance(&Some("zzz".to_string())) {
        Err(LynxError::InstanceNotFound(m)) => assert_eq!(m, "zzz"),
        _ => panic!("expected InstanceNotFound"),
    }
}

#[test]
fn adding_same_id_replaces() {
    let mut mgr = BrowserManager::new(config());
    mgr.add_instance(inst("a", 1));
    mgr.add_instance(inst("a", 7));
    assert_eq!(mgr.instances().len(), 1);
    assert_eq!(mgr.get_instance(&Some("a".to_string())).unwrap().handle, 7);
}

#[test]
fn destroy_then_missing_and_second_destroy_fails() {
    let mut mgr = BrowserManager::new(config());
    mgr.add_instance(inst("a", 1));
    mgr.add_instance(inst("b", 2));
    assert!(mgr.destroy_instance("a").is_ok());
    assert!(mgr.get_instance(&Some("a".to_string())).is_err());
    assert_eq!(mgr.get_instance(&None).unwrap().handle, 2);
    match mgr.destroy_instance("a") {
        Err(e) => assert_eq!(e.message(), "Instance not found: a"),
        Ok(()) => panic!("second destroy must fail"),
    }
}

#[test]
fn mutable_access_changes_the_instance() {
    let mut mgr = BrowserManager::new(config());
    mgr.add_instance(inst("a", 1));
    mgr.get_instance_mut(&None).unwrap().snapshot_version = 42;
    assert_eq!(mgr.get_instance(&Some("a".to_string())).unwrap().snapshot_version, 42);
    assert_eq!(mgr.instances()[0].snapshot_version, 42);
    assert!(mgr.get_instance_mut(&Some("x".to_string())).is_err());
}

#[test]
fn listing_reports_each_instance() {
    let mut mgr = BrowserManager::new(config());
    mgr.add_instance(inst("a", 1));
    mgr.add_instance(inst("b", 2));
    let infos = mgr.list_instances(&vec![true, false], &vec!["https://a.example/".to_string(), String::new()]);
    assert_eq!(infos.len(), 2);
    assert_eq!(infos[0].id, "a");
    assert_eq!(infos[0].status, "alive");
    assert_eq!(infos[1].status, "dead");
    assert_eq!(infos[1].profile, "work");
    assert_eq!(infos[0].url, "https://a.example/");
    assert_eq!(infos[1].url, "");
    assert!(infos[1].headless);
    assert_eq!(mgr.config().chrome_path, "/usr/bin/chromium");
}
