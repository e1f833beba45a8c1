//! Verified core of a game-server manager.
//!
//! The crate models the state that the manager is responsible for — declared
//! configurations, the lifecycle of each managed OS process, console fan-out,
//! resource monitoring and the recovery protocol run after a manager restart —
//! and proves that every operation moves that state as the design demands.
//! All I/O (spawning, signalling, files, HTTP) is performed by a thin shell
//! around this crate; the decisions the shell acts on are computed and
//! verified here.

pub mod api;
pub mod auth;
pub mod broadcast;
pub mod downloader;
pub mod errors;
pub mod files;
pub mod monitor;
pub mod plugins;
pub mod process;
pub mod props;
pub mod recovery;
pub mod registry;
pub mod text;
pub mod types;
pub mod world;
