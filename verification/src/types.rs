//! The declared configuration and per-instance state that the manager owns.

use vstd::prelude::*;
use vstd::string::*;

verus! {

#[derive(Clone, Copy, Debug, PartialEq, Eq, Structural)]
pub enum ServerType {
    Paper,
    Spigot,
}

/// The storage and wire name of a server type.
pub fn server_type_name(t: ServerType) -> (r: &'static str)
    ensures
        r@ == (match t {
            ServerType::Paper => "paper"@,
            ServerType::Spigot => "spigot"@,
        }),
{
    match t {
        ServerType::Paper => "paper",
        ServerType::Spigot => "spigot",
    }
}

/// Reads a stored server type name; anything unrecognised falls back to
/// Paper, as persisted rows are read leniently.
pub fn parse_server_type(s: &String) -> (t: ServerType)
    ensures
        t == (if s@ == "spigot"@ {
            ServerType::Spigot
        } else {
            ServerType::Paper
        }),
{
    if *s == "spigot".to_owned() {
        ServerType::Spigot
    } else {
        ServerType::Paper
    }
}

/// Lifecycle state of a managed instance; the registry owns the
/// authoritative value.
#[derive(Clone, Copy, Debug, PartialEq, Eq, Structural)]
pub enum ServerState {
    Stopped,
    Starting,
    Running,
    Stopping,
}

/// One `key=value` entry of a server's properties file.
#[derive(Debug)]
pub struct Property {
    pub key: String,
    pub value: String,
}

impl Clone for Property {
    fn clone(&self) -> (r: Self)
        ensures
            r == *self,
    {
        Property { key: self.key.clone(), value: self.value.clone() }
    }
}

/// Launch parameters of an instance, immutable while it runs.
#[derive(Debug)]
pub struct ServerConfig {
    pub id: String,
    pub name: String,
    pub server_type: ServerType,
    pub minecraft_version: String,
    pub port: u16,
    pub max_players: u32,
    pub memory_mb: u32,
    pub auto_start: bool,
    pub properties: Vec<Property>,
}

/// Two configurations that agree on every launch parameter.
pub open spec fn config_like(a: &ServerConfig, b: &ServerConfig) -> bool {
    &&& a.id == b.id
    &&& a.name == b.name
    &&& a.server_type == b.server_type
    &&& a.minecraft_version == b.minecraft_version
    &&& a.port == b.port
    &&& a.max_players == b.max_players
    &&& a.memory_mb == b.memory_mb
    &&& a.auto_start == b.auto_start
    &&& a.properties@ == b.properties@
}

impl Clone for ServerConfig {
    fn clone(&self) -> (r: Self)
        ensures
            config_like(&r, self),
    {
        let r = ServerConfig {
            id: self.id.clone(),
            name: self.name.clone(),
            server_type: self.server_type,
            minecraft_version: self.minecraft_version.clone(),
            port: self.port,
            max_players: self.max_players,
            memory_mb: self.memory_mb,
            auto_start: self.auto_start,
            properties: self.properties.clone(),
        };
        proof {
            assert(r.properties@ =~= self.properties@);
        }
        r
    }
}

/// Relies on `uuid::Uuid::new_v4` and its hyphenated `Display` form: a
/// freshly generated random id. Nothing is promised of the value.
#[verifier::external_body]
fn fresh_instance_id() -> (id: String) {
    uuid::Uuid::new_v4().to_string()
}

impl ServerConfig {
    /// A new configuration under a fresh identifier, with the default
    /// port, player cap and memory ceiling.
    pub fn new(name: String, server_type: ServerType, minecraft_version: String) -> (c:
        ServerConfig)
        ensures
            c.name == name,
            c.server_type == server_type,
            c.minecraft_version == minecraft_version,
            c.port == 25565,
            c.max_players == 20,
            c.memory_mb == 2048,
            c.auto_start == false,
            c.properties@ =~= Seq::<Property>::empty(),
    {
        ServerConfig {
            id: fresh_instance_id(),
            name,
            server_type,
            minecraft_version,
            port: 25565,
            max_players: 20,
            memory_mb: 2048,
            auto_start: false,
            properties: Vec::new(),
        }
    }

    /// The instance's working directory under `base_dir`.
    pub fn server_dir(&self, base_dir: &str) -> (p: String)
        ensures
            p@ == base_dir@ + "/"@ + self.id@,
    {
        let mut p = base_dir.to_owned();
        p.append("/");
        p.append(self.id.as_str());
        p
    }
}

/// A managed instance: its configuration plus the state the registry owns.
#[derive(Clone, Debug)]
pub struct ServerInstance {
    pub config: ServerConfig,
    pub state: ServerState,
    pub pid: Option<u32>,
    pub players_online: u32,
}

impl ServerInstance {
    /// A freshly declared instance: stopped, with no process attached.
    pub fn new(config: ServerConfig) -> (inst: ServerInstance)
        ensures
            inst.config == config,
            inst.state == ServerState::Stopped,
            inst.pid is None,
            inst.players_online == 0,
    {
        ServerInstance { config, state: ServerState::Stopped, pid: None, players_online: 0 }
    }
}

/// One resource sample for a running instance. CPU load is carried in
/// hundredths of a percent so that the sample stays in plain integers.
#[derive(Clone, Copy, Debug, PartialEq, Eq, Structural)]
pub struct ServerStats {
    pub cpu_centi_percent: u64,
    pub memory_mb: u64,
    pub disk_mb: u64,
    pub uptime_seconds: u64,
}

#[derive(Clone, Debug)]
pub struct PluginInfo {
    pub name: String,
    pub version: String,
    pub description: Option<String>,
    pub author: Option<String>,
    pub installed: bool,
}

#[derive(Clone, Debug)]
pub struct WorldInfo {
    pub name: String,
    pub size_mb: u64,
    pub last_modified: u64,
}

} // verus!
