//! The request and response shapes of the control API, and the pure
//! assembly every endpoint performs around the registry.

use vstd::prelude::*;
use vstd::string::*;

use crate::errors::ServerError;
use crate::types::Property;
use crate::types::PluginInfo;
use crate::types::ServerConfig;
use crate::types::ServerInstance;
use crate::types::ServerState;
use crate::types::ServerStats;
use crate::types::ServerType;
use crate::types::WorldInfo;
use crate::files::FileInfo;

verus! {

#[derive(Debug)]
pub struct CreateServerRequest {
    pub name: String,
    pub server_type: ServerType,
    pub minecraft_version: String,
    pub port: Option<u16>,
    pub max_players: Option<u32>,
    pub memory_mb: Option<u32>,
}

#[derive(Debug)]
pub struct ServerResponse {
    pub id: String,
    pub name: String,
    pub server_type: ServerType,
    pub minecraft_version: String,
    pub port: u16,
    pub state: ServerState,
    pub players_online: u32,
}

#[derive(Debug)]
pub struct VersionsResponse {
    pub versions: Vec<String>,
}

#[derive(Debug)]
pub struct ConfigResponse {
    pub properties: Vec<Property>,
}

#[derive(Debug)]
pub struct UpdateConfigRequest {
    pub properties: Vec<Property>,
}

#[derive(Debug)]
pub struct WorldsResponse {
    pub worlds: Vec<WorldInfo>,
}

#[derive(Debug)]
pub struct BackupWorldRequest {
    pub world_name: String,
}

#[derive(Debug)]
pub struct BackupResponse {
    pub backup_name: String,
}

#[derive(Debug)]
pub struct SearchQuery {
    pub q: String,
}

#[derive(Debug)]
pub struct PluginsResponse {
    pub plugins: Vec<PluginInfo>,
}

#[derive(Debug)]
pub struct InstallPluginRequest {
    pub plugin_name: String,
}

#[derive(Debug)]
pub struct ListFilesQuery {
    pub path: Option<String>,
}

#[derive(Debug)]
pub struct SaveFileRequest {
    pub content: String,
}

#[derive(Debug)]
pub struct FileContent {
    pub content: String,
}

#[derive(Debug)]
pub struct StatsResponse {
    pub stats: Option<ServerStats>,
}

/// Ordered listing of files as the listing endpoint reports them.
pub struct FilesResponse {
    pub files: Vec<FileInfo>,
}

/// Reads the server type named in a request path; only the two known
/// names are accepted.
pub fn parse_server_type_strict(s: &String) -> (r: Result<ServerType, ServerError>)
    ensures
        s@ == "paper"@ ==> r == Ok::<ServerType, ServerError>(ServerType::Paper),
        s@ != "paper"@ && s@ == "spigot"@ ==> r == Ok::<ServerType, ServerError>(
            ServerType::Spigot,
        ),
        s@ != "paper"@ && s@ != "spigot"@ ==> r == Err::<ServerType, ServerError>(
            ServerError::InvalidServerType,
        ),
{
    if *s == "paper".to_owned() {
        Ok(ServerType::Paper)
    } else if *s == "spigot".to_owned() {
        Ok(ServerType::Spigot)
    } else {
        Err(ServerError::InvalidServerType)
    }
}

/// A creation request's declared configuration: the defaults, with the
/// request's overrides where given.
pub fn config_from_request(req: &CreateServerRequest) -> (c: ServerConfig)
    ensures
        c.name == req.name,
        c.server_type == req.server_type,
        c.minecraft_version == req.minecraft_version,
        c.port == (match req.port {
            Some(p) => p,
            None => 25565,
        }),
        c.max_players == (match req.max_players {
            Some(m) => m,
            None => 20,
        }),
        c.memory_mb == (match req.memory_mb {
            Some(m) => m,
            None => 2048,
        }),
        c.auto_start == false,
        c.properties@ =~= Seq::<Property>::empty(),
{
    let mut c = ServerConfig::new(
        req.name.clone(),
        req.server_type,
        req.minecraft_version.clone(),
    );
    if let Some(p) = req.port {
        c.port = p;
    }
    if let Some(m) = req.max_players {
        c.max_players = m;
    }
    if let Some(m) = req.memory_mb {
        c.memory_mb = m;
    }
    c
}

/// An instance as the API reports it: its declared configuration, with the
/// registry's state where the registry holds the instance and the Stopped
/// defaults where it does not.
pub fn server_response_of(config: &ServerConfig, instance: Option<&ServerInstance>) -> (r:
    ServerResponse)
    ensures
        r.id == config.id,
        r.name == config.name,
        r.server_type == config.server_type,
        r.minecraft_version == config.minecraft_version,
        r.port == config.port,
        r.state == (match instance {
            Some(i) => i.state,
            None => ServerState::Stopped,
        }),
        r.players_online == (match instance {
            Some(i) => i.players_online,
            None => 0u32,
        }),
{
    let (state, players_online) = match instance {
        Some(i) => (i.state, i.players_online),
        None => (ServerState::Stopped, 0),
    };
    ServerResponse {
        id: config.id.clone(),
        name: config.name.clone(),
        server_type: config.server_type,
        minecraft_version: config.minecraft_version.clone(),
        port: config.port,
        state,
        players_online,
    }
}

} // verus!
