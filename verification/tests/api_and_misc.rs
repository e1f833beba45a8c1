use mineserv::api::{config_from_request, parse_server_type_strict, server_response_of,
    CreateServerRequest};
use mineserv::auth::{login, verify_token, LoginRequest, TOKEN_VALIDITY_SECONDS};
use mineserv::downloader::{latest_build, paper_build_url, paper_builds_url, paper_download_url,
    paper_project_url, spigot_jar_name, spigot_versions};
use mineserv::errors::{AuthError, ServerError, StatsError};
use mineserv::monitor::ServerMonitor;
use mineserv::types::{parse_server_type, server_type_name, Property, ServerConfig,
    ServerInstance, ServerState, ServerType};
use mineserv::world::{backup_file_name, bytes_to_mb};

fn test_config(id: &str) -> ServerConfig {
    ServerConfig {
        id: id.to_string(),
        name: "alpha".to_string(),
        server_type: ServerType::Spigot,
        minecraft_version: "1.20.6".to_string(),
        port: 25599,
        max_players: 8,
        memory_mb: 1024,
        auto_start: false,
        properties: Vec::<Property>::new(),
    }
}

#[test]
fn server_type_names_round_trip() {
    assert_eq!(server_type_name(ServerType::Paper), "paper");
    assert_eq!(server_type_name(ServerType::Spigot), "spigot");
    assert_eq!(parse_server_type(&"paper".to_string()), ServerType::Paper);
    assert_eq!(parse_server_type(&"spigot".to_string()), ServerType::Spigot);
    // persisted rows are read leniently
    assert_eq!(parse_server_type(&"unknown".to_string()), ServerType::Paper);
}

#[test]
fn request_paths_accept_only_known_types() {
    assert_eq!(parse_server_type_strict(&"paper".to_string()), Ok(ServerType::Paper));
    assert_eq!(parse_server_type_strict(&"spigot".to_string()), Ok(ServerType::Spigot));
    assert_eq!(
        parse_server_type_strict(&"forge".to_string()),
        Err(ServerError::InvalidServerType)
    );
}

#[test]
fn creation_requests_override_the_defaults() {
    let req = CreateServerRequest {
        name: "alpha".to_string(),
        server_type: ServerType::Paper,
        minecraft_version: "1.21.1".to_string(),
        port: Some(30000),
        max_players: None,
        memory_mb: Some(4096),
    };
    let c = config_from_request(&req);
    assert_eq!(c.port, 30000);
    assert_eq!(c.max_players, 20);
    assert_eq!(c.memory_mb, 4096);
    assert_eq!(c.name, "alpha");
    assert!(!c.auto_start);
}

#[test]
fn responses_default_to_stopped_for_unknown_instances() {
    let config = test_config("a");
    let r = server_response_of(&config, None);
    assert_eq!(r.state, ServerState::Stopped);
    assert_eq!(r.players_online, 0);
    assert_eq!(r.port, 25599);

    let mut inst = ServerInstance::new(test_config("a"));
    inst.state = ServerState::Running;
    inst.pid = Some(5);
    let r2 = server_response_of(&config, Some(&inst));
    assert_eq!(r2.state, ServerState::Running);
}

#[test]
fn login_rejects_a_wrong_password() {
    let payload = LoginRequest { password: "nope".to_string() };
    let r = login(&payload, &"secret-pw".to_string(), &"jwt-secret".to_string(), 1_700_000_000);
    assert_eq!(r.err(), Some(AuthError::InvalidCredentials));
}

#[test]
fn login_issues_a_verifiable_day_long_token() {
    let now = chrono::Utc::now().timestamp();
    let payload = LoginRequest { password: "secret-pw".to_string() };
    let secret = "jwt-secret".to_string();
    let token = login(&payload, &"secret-pw".to_string(), &secret, now)
        .expect("login should succeed")
        .token;
    let claims = verify_token(&token, &secret).expect("freshly issued token verifies");
    assert_eq!(claims.sub, "admin");
    assert_eq!(claims.exp, now as u64 + TOKEN_VALIDITY_SECONDS);
}

#[test]
fn verify_token_rejects_garbage_and_wrong_secrets() {
    assert_eq!(
        verify_token("not.a.token", "jwt-secret").err(),
        Some(AuthError::InvalidToken)
    );
    let now = chrono::Utc::now().timestamp();
    let payload = LoginRequest { password: "pw".to_string() };
    let token = login(&payload, &"pw".to_string(), &"secret-one".to_string(), now)
        .unwrap()
        .token;
    assert_eq!(
        verify_token(&token, "secret-two").err(),
        Some(AuthError::InvalidToken)
    );
}

#[test]
fn stats_come_from_the_shell_sample() {
    let m = ServerMonitor { started_at: 1000 };
    let stats = m.get_stats(true, 1250, 3 * 1024 * 1024 * 1024, 1600).unwrap();
    assert_eq!(stats.cpu_centi_percent, 1250);
    assert_eq!(stats.memory_mb, 3072);
    assert_eq!(stats.disk_mb, 0);
    assert_eq!(stats.uptime_seconds, 600);
}

#[test]
fn stats_on_a_vanished_process_are_not_available() {
    let m = ServerMonitor { started_at: 0 };
    assert_eq!(m.get_stats(false, 0, 0, 10).err(), Some(StatsError::ProcessNotFound));
}

#[test]
fn uptime_never_goes_negative() {
    let m = ServerMonitor { started_at: 2000 };
    let stats = m.get_stats(true, 0, 0, 1000).unwrap();
    assert_eq!(stats.uptime_seconds, 0);
}

#[test]
fn paper_urls_follow_the_build_pipeline() {
    assert_eq!(paper_project_url(), "https://api.papermc.io/v2/projects/paper");
    assert_eq!(
        paper_builds_url("1.21.1"),
        "https://api.papermc.io/v2/projects/paper/versions/1.21.1"
    );
    assert_eq!(
        paper_build_url("1.21.1", 130),
        "https://api.papermc.io/v2/projects/paper/versions/1.21.1/builds/130"
    );
    assert_eq!(
        paper_download_url("1.21.1", 130, "paper-1.21.1-130.jar"),
        "https://api.papermc.io/v2/projects/paper/versions/1.21.1/builds/130/downloads/paper-1.21.1-130.jar"
    );
}

#[test]
fn the_newest_build_is_the_last_listed() {
    assert_eq!(latest_build(&vec![]), None);
    assert_eq!(latest_build(&vec![100, 120, 130]), Some(130));
}

#[test]
fn spigot_offering_is_the_fixed_list() {
    let v = spigot_versions();
    assert_eq!(v.len(), 6);
    assert_eq!(v[0], "1.21.1");
    assert_eq!(v[5], "1.19.4");
    assert_eq!(spigot_jar_name("1.20.6"), "spigot-1.20.6.jar");
}

#[test]
fn backup_names_carry_world_and_timestamp() {
    assert_eq!(
        backup_file_name("world", "20260101_120000"),
        "world_20260101_120000.zip"
    );
    assert_eq!(bytes_to_mb(5 * 1024 * 1024 + 7), 5);
}

#[test]
fn error_responses_match_the_api_contract() {
    assert_eq!(ServerError::NotFound.response_parts(), (404, "Server not found".to_string()));
    assert_eq!(
        ServerError::AlreadyRunning.response_parts(),
        (409, "Server already running".to_string())
    );
    assert_eq!(
        ServerError::Internal("x".to_string()).response_parts(),
        (500, "Internal server error".to_string())
    );
    assert_eq!(
        AuthError::InvalidCredentials.response_parts(),
        (401, "Invalid credentials".to_string())
    );
}

#[test]
fn fresh_configurations_get_distinct_ids_and_defaults() {
    let a = ServerConfig::new("a".to_string(), ServerType::Paper, "1.21.1".to_string());
    let b = ServerConfig::new("b".to_string(), ServerType::Paper, "1.21.1".to_string());
    assert_ne!(a.id, b.id);
    assert!(!a.id.is_empty());
    assert_eq!(a.port, 25565);
    assert_eq!(a.max_players, 20);
    assert_eq!(a.memory_mb, 2048);
    assert_eq!(a.server_dir("/srv"), format!("/srv/{}", a.id));
}
