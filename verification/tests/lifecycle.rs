use mineserv::errors::ServerError;
use mineserv::registry::{InstanceRegistry, RestartPlan};
use mineserv::types::{Property, ServerConfig, ServerInstance, ServerState, ServerType};

fn test_config(id: &str, name: &str) -> ServerConfig {
    ServerConfig {
        id: id.to_string(),
        name: name.to_string(),
        server_type: ServerType::Paper,
        minecraft_version: "1.21.1".to_string(),
        port: 25565,
        max_players: 20,
        memory_mb: 2048,
        auto_start: false,
        properties: Vec::<Property>::new(),
    }
}

#[test]
fn start_transitions_to_running_with_pid_and_marker() {
    let mut reg = InstanceRegistry::new("/srv".to_string());
    let id = "inst-a".to_string();
    assert!(reg.begin_start(test_config(&id, "alpha")).is_ok());
    let marker = reg.finish_start(&id, 4242, 1_700_000_000);
    assert_eq!(marker.path, "/srv/inst-a/server.pid");
    assert_eq!(marker.contents, "4242");
    let entry = reg.get(&id).unwrap();
    assert_eq!(entry.instance.state, ServerState::Running);
    assert_eq!(entry.instance.pid, Some(4242));
    assert!(entry.monitor.is_some());
}

#[test]
fn second_start_without_stop_is_already_running() {
    let mut reg = InstanceRegistry::new("/srv".to_string());
    let id = "inst-a".to_string();
    assert!(reg.begin_start(test_config(&id, "alpha")).is_ok());
    // still Starting: a concurrent second request must not reach a spawn
    assert_eq!(
        reg.begin_start(test_config(&id, "alpha")),
        Err(ServerError::AlreadyRunning)
    );
    reg.finish_start(&id, 4242, 0);
    // Running: same rejection
    assert_eq!(
        reg.begin_start(test_config(&id, "alpha")),
        Err(ServerError::AlreadyRunning)
    );
    // exactly one pid was ever attached
    assert_eq!(reg.get(&id).unwrap().instance.pid, Some(4242));
}

#[test]
fn start_after_observed_exit_is_admitted_again() {
    let mut reg = InstanceRegistry::new("/srv".to_string());
    let id = "inst-a".to_string();
    reg.begin_start(test_config(&id, "alpha")).unwrap();
    reg.finish_start(&id, 11, 0);
    let marker = reg.observe_exit(&id).unwrap();
    assert_eq!(marker, "/srv/inst-a/server.pid");
    let entry = reg.get(&id).unwrap();
    assert_eq!(entry.instance.state, ServerState::Stopped);
    assert_eq!(entry.instance.pid, None);
    assert!(entry.process.is_none());
    assert!(entry.monitor.is_none());
    assert!(reg.begin_start(test_config(&id, "alpha")).is_ok());
}

#[test]
fn stop_requires_attached_process() {
    let mut reg = InstanceRegistry::new("/srv".to_string());
    let id = "inst-a".to_string();
    assert_eq!(reg.request_stop(&id), Err(ServerError::NotRunning));
    reg.insert_instance(ServerInstance::new(test_config(&id, "alpha")));
    assert_eq!(reg.request_stop(&id), Err(ServerError::NotRunning));
}

#[test]
fn graceful_stop_enqueues_command_and_moves_to_stopping() {
    let mut reg = InstanceRegistry::new("/srv".to_string());
    let id = "inst-a".to_string();
    reg.begin_start(test_config(&id, "alpha")).unwrap();
    reg.finish_start(&id, 77, 0);
    assert!(reg.request_stop(&id).is_ok());
    let entry = reg.get(&id).unwrap();
    assert_eq!(entry.instance.state, ServerState::Stopping);
    assert_eq!(entry.instance.pid, Some(77));
    assert_eq!(entry.process.as_ref().unwrap().pending, vec!["stop".to_string()]);
    // the exit-watcher finishes the cycle
    reg.observe_exit(&id).unwrap();
    assert_eq!(reg.get(&id).unwrap().instance.state, ServerState::Stopped);
}

#[test]
fn delete_while_running_is_rejected_without_state_change() {
    let mut reg = InstanceRegistry::new("/srv".to_string());
    let id = "inst-a".to_string();
    reg.begin_start(test_config(&id, "alpha")).unwrap();
    reg.finish_start(&id, 9001, 0);
    assert_eq!(reg.remove(&id), Err(ServerError::ServerRunning));
    let entry = reg.get(&id).unwrap();
    assert_eq!(entry.instance.state, ServerState::Running);
    assert_eq!(entry.instance.pid, Some(9001));
}

#[test]
fn delete_when_stopped_removes_the_entry() {
    let mut reg = InstanceRegistry::new("/srv".to_string());
    let id = "inst-a".to_string();
    reg.insert_instance(ServerInstance::new(test_config(&id, "alpha")));
    assert!(reg.remove(&id).is_ok());
    assert!(reg.get(&id).is_none());
    // deleting an unknown instance is fine as well
    assert!(reg.remove(&id).is_ok());
}

#[test]
fn restart_full_cycle_ends_running_with_new_pid() {
    let mut reg = InstanceRegistry::new("/srv".to_string());
    let id = "inst-a".to_string();
    reg.begin_start(test_config(&id, "alpha")).unwrap();
    reg.finish_start(&id, 100, 0);
    assert_eq!(reg.restart_plan(&id), RestartPlan::StopThenStart);
    // stop phase
    reg.request_stop(&id).unwrap();
    reg.observe_exit(&id).unwrap();
    // start phase
    reg.begin_start(test_config(&id, "alpha")).unwrap();
    let marker = reg.finish_start(&id, 101, 0);
    assert_eq!(marker.contents, "101");
    let entry = reg.get(&id).unwrap();
    assert_eq!(entry.instance.state, ServerState::Running);
    assert_eq!(entry.instance.pid, Some(101));
}

#[test]
fn restart_of_stopped_instance_skips_stop_phase() {
    let mut reg = InstanceRegistry::new("/srv".to_string());
    let id = "inst-a".to_string();
    reg.insert_instance(ServerInstance::new(test_config(&id, "alpha")));
    assert_eq!(reg.restart_plan(&id), RestartPlan::JustStart);
}

#[test]
fn abort_start_returns_to_stopped() {
    let mut reg = InstanceRegistry::new("/srv".to_string());
    let id = "inst-a".to_string();
    reg.begin_start(test_config(&id, "alpha")).unwrap();
    reg.abort_start(&id);
    let entry = reg.get(&id).unwrap();
    assert_eq!(entry.instance.state, ServerState::Stopped);
    assert_eq!(entry.instance.pid, None);
    assert!(entry.process.is_none());
}

#[test]
fn exit_watcher_tolerates_removed_instance() {
    let mut reg = InstanceRegistry::new("/srv".to_string());
    let id = "gone".to_string();
    assert!(reg.observe_exit(&id).is_none());
}

#[test]
fn running_count_counts_attached_pids() {
    let mut reg = InstanceRegistry::new("/srv".to_string());
    let a = "inst-a".to_string();
    let b = "inst-b".to_string();
    reg.begin_start(test_config(&a, "alpha")).unwrap();
    reg.finish_start(&a, 1, 0);
    reg.begin_start(test_config(&b, "beta")).unwrap();
    assert_eq!(reg.running_count(), 1);
    reg.finish_start(&b, 2, 0);
    assert_eq!(reg.running_count(), 2);
    reg.observe_exit(&a).unwrap();
    assert_eq!(reg.running_count(), 1);
}
