use mineserv::recovery::{marker_status, recover_instance, MarkerStatus};
use mineserv::registry::InstanceRegistry;
use mineserv::types::{Property, ServerConfig, ServerState, ServerType};

fn test_config(id: &str) -> ServerConfig {
    ServerConfig {
        id: id.to_string(),
        name: "alpha".to_string(),
        server_type: ServerType::Paper,
        minecraft_version: "1.21.1".to_string(),
        port: 25565,
        max_players: 20,
        memory_mb: 2048,
        auto_start: false,
        properties: Vec::<Property>::new(),
    }
}

#[test]
fn marker_evidence_is_read_leniently() {
    assert_eq!(marker_status(None), MarkerStatus::Missing);
    assert_eq!(
        marker_status(Some(&"1234\n".to_string())),
        MarkerStatus::Recorded(1234)
    );
    assert_eq!(
        marker_status(Some(&"  987  ".to_string())),
        MarkerStatus::Recorded(987)
    );
    assert_eq!(marker_status(Some(&"".to_string())), MarkerStatus::Corrupt);
    assert_eq!(marker_status(Some(&"pid=12".to_string())), MarkerStatus::Corrupt);
    assert_eq!(
        marker_status(Some(&"99999999999999".to_string())),
        MarkerStatus::Corrupt
    );
}

#[test]
fn no_marker_leaves_the_instance_stopped() {
    let mut reg = InstanceRegistry::new("/srv".to_string());
    let id = "a".to_string();
    let step = recover_instance(&mut reg, test_config(&id), None, false, 0);
    assert!(step.watch_pid.is_none());
    assert!(step.delete_marker.is_none());
    assert!(reg.get(&id).is_none());
}

#[test]
fn corrupt_marker_is_skipped_and_touches_nothing() {
    let mut reg = InstanceRegistry::new("/srv".to_string());
    let id = "a".to_string();
    let marker = "not a pid".to_string();
    let step = recover_instance(&mut reg, test_config(&id), Some(&marker), true, 0);
    assert!(step.watch_pid.is_none());
    assert!(step.delete_marker.is_none());
    assert!(reg.get(&id).is_none());
}

#[test]
fn stale_marker_is_deleted_and_instance_stays_stopped() {
    let mut reg = InstanceRegistry::new("/srv".to_string());
    let id = "a".to_string();
    let marker = "4242".to_string();
    // the probe found no process at the recorded id
    let step = recover_instance(&mut reg, test_config(&id), Some(&marker), false, 0);
    assert!(step.watch_pid.is_none());
    assert_eq!(step.delete_marker, Some("/srv/a/server.pid".to_string()));
    assert!(reg.get(&id).is_none());
}

#[test]
fn live_marker_recovers_the_instance_as_running() {
    let mut reg = InstanceRegistry::new("/srv".to_string());
    let id = "a".to_string();
    let marker = "4242".to_string();
    let step = recover_instance(&mut reg, test_config(&id), Some(&marker), true, 1_700_000_000);
    assert_eq!(step.watch_pid, Some(4242));
    assert!(step.delete_marker.is_none());
    let entry = reg.get(&id).unwrap();
    assert_eq!(entry.instance.state, ServerState::Running);
    assert_eq!(entry.instance.pid, Some(4242));
    // the handle is a recovered one: no input channel
    assert!(!entry.process.as_ref().unwrap().input_open);
    // uptime counts from the manager's restart
    assert_eq!(entry.monitor.unwrap().started_at, 1_700_000_000);
}

#[test]
fn recovered_instance_returns_to_stopped_when_its_probe_fails() {
    let mut reg = InstanceRegistry::new("/srv".to_string());
    let id = "a".to_string();
    let marker = "4242".to_string();
    recover_instance(&mut reg, test_config(&id), Some(&marker), true, 0);
    // the watcher's probe eventually fails: ordinary exit transition
    let removed = reg.observe_exit(&id).unwrap();
    assert_eq!(removed, "/srv/a/server.pid");
    let entry = reg.get(&id).unwrap();
    assert_eq!(entry.instance.state, ServerState::Stopped);
    assert_eq!(entry.instance.pid, None);
}

#[test]
fn one_bad_entry_does_not_disturb_the_others() {
    let mut reg = InstanceRegistry::new("/srv".to_string());
    let good = "good".to_string();
    let bad = "bad".to_string();
    let live = "10".to_string();
    let garbage = "garbage".to_string();
    recover_instance(&mut reg, test_config(&bad), Some(&garbage), true, 0);
    recover_instance(&mut reg, test_config(&good), Some(&live), true, 0);
    assert!(reg.get(&bad).is_none());
    assert_eq!(reg.get(&good).unwrap().instance.state, ServerState::Running);
}
