use mineserv::errors::ProcessError;
use mineserv::process::{jvm_args, command_line, tag_stderr, ServerProcess};
use mineserv::types::{Property, ServerConfig, ServerType};

fn test_config(id: &str) -> ServerConfig {
    ServerConfig {
        id: id.to_string(),
        name: "alpha".to_string(),
        server_type: ServerType::Paper,
        minecraft_version: "1.21.1".to_string(),
        port: 25565,
        max_players: 20,
        memory_mb: 2048,
        auto_start: false,
        properties: Vec::<Property>::new(),
    }
}

#[test]
fn start_plan_requires_executable() {
    let p = ServerProcess::new(test_config("a"), "/srv".to_string());
    let err = p.start_plan(false).err().unwrap();
    assert_eq!(err, ProcessError::ExecutableMissing);
}

#[test]
fn start_plan_spawns_java_in_the_working_directory() {
    let p = ServerProcess::new(test_config("a"), "/srv".to_string());
    let plan = p.start_plan(true).ok().unwrap();
    assert_eq!(plan.program, "java");
    assert_eq!(plan.cwd, "/srv/a");
    assert_eq!(plan.eula_path, "/srv/a/eula.txt");
    assert_eq!(plan.eula_contents, "eula=true\n");
    assert_eq!(plan.args[0], "-Xms1024M");
    assert_eq!(plan.args[1], "-Xmx2048M");
    assert_eq!(plan.args[plan.args.len() - 3], "-jar");
    assert_eq!(plan.args[plan.args.len() - 2], "server.jar");
    assert_eq!(plan.args[plan.args.len() - 1], "--nogui");
}

#[test]
fn jvm_args_scale_with_the_memory_ceiling() {
    let args = jvm_args(512);
    assert_eq!(args[0], "-Xms256M");
    assert_eq!(args[1], "-Xmx512M");
    assert_eq!(args.len(), 26);
}

#[test]
fn attach_spawned_writes_the_marker_with_the_pid() {
    let mut p = ServerProcess::new(test_config("a"), "/srv".to_string());
    let marker = p.attach_spawned(31337);
    assert_eq!(marker.path, "/srv/a/server.pid");
    assert_eq!(marker.contents, "31337");
    assert!(p.is_running(None));
}

#[test]
fn send_command_queues_for_a_spawned_handle() {
    let mut p = ServerProcess::new(test_config("a"), "/srv".to_string());
    p.attach_spawned(1);
    assert!(p.send_command("say hello".to_string()).is_ok());
    assert!(p.stop().is_ok());
    let pending = p.take_pending();
    assert_eq!(pending, vec!["say hello".to_string(), "stop".to_string()]);
    assert!(p.take_pending().is_empty());
}

#[test]
fn send_command_fails_permanently_on_a_recovered_handle() {
    let mut p = ServerProcess::from_pid(test_config("a"), "/srv".to_string(), 555);
    assert_eq!(
        p.send_command("say hello".to_string()),
        Err(ProcessError::NoInputChannel)
    );
    assert_eq!(p.stop(), Err(ProcessError::NoInputChannel));
}

#[test]
fn command_lines_are_newline_terminated() {
    assert_eq!(command_line("stop"), "stop\n");
    assert_eq!(tag_stderr("boom"), "[ERROR] boom");
}

#[test]
fn is_running_prefers_the_attached_child_then_the_probe() {
    let mut spawned = ServerProcess::new(test_config("a"), "/srv".to_string());
    spawned.attach_spawned(7);
    // an attached handle is running no matter what a probe would say
    assert!(spawned.is_running(None));
    assert!(spawned.is_running(Some(false)));

    let recovered = ServerProcess::from_pid(test_config("b"), "/srv".to_string(), 8);
    // a handle without a child reports exactly what the probe observed
    assert!(recovered.is_running(Some(true)));
    assert!(!recovered.is_running(Some(false)));
    // and is not running when there was no marker to probe
    assert!(!recovered.is_running(None));
}

#[test]
fn force_stop_on_recovered_handle_still_removes_the_marker() {
    let mut p = ServerProcess::from_pid(test_config("a"), "/srv".to_string(), 555);
    let plan = p.force_stop(Some(555));
    assert_eq!(plan.kill_pid, Some(555));
    assert_eq!(plan.marker_path, "/srv/a/server.pid");
    assert!(!p.is_running(None));
    // idempotent: already gone, nothing to signal, marker still removed
    let again = p.force_stop(None);
    assert_eq!(again.kill_pid, None);
    assert_eq!(again.marker_path, "/srv/a/server.pid");
}

#[test]
fn force_stop_on_spawned_handle_signals_its_own_pid() {
    let mut p = ServerProcess::new(test_config("a"), "/srv".to_string());
    p.attach_spawned(42);
    let plan = p.force_stop(None);
    assert_eq!(plan.kill_pid, Some(42));
    assert_eq!(plan.marker_path, "/srv/a/server.pid");
}

#[test]
fn observed_exit_clears_the_handle_and_names_the_marker() {
    let mut p = ServerProcess::new(test_config("a"), "/srv".to_string());
    p.attach_spawned(42);
    let marker = p.observe_exit();
    assert_eq!(marker, "/srv/a/server.pid");
    assert!(!p.is_running(None));
    assert_eq!(p.send_command("late".to_string()), Err(ProcessError::NoInputChannel));
}
