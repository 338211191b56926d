//! Declarative composition of playlists on a remote music service.
//!
//! A user declares, as a directed graph, how playlists are composed from one
//! another (union, subtraction, artist-based querying). This library turns
//! that graph into an ordered, dependency-respecting action plan and
//! reconciles per-node desired track sets against observed remote state
//! with minimal, batched add/remove operations. All I/O — files, network,
//! the remote service itself — stays with the caller; every decision in
//! between is made here and verified.

pub mod args;
pub mod config;
pub mod errors;
pub mod executor;
pub mod graph;
pub mod logger;
pub mod plan;
pub mod post_apply;
pub mod query;
pub mod settings;
pub mod snapshot;
pub mod store;
pub mod text;
pub mod tracks;
pub mod traits;
pub mod types;
pub mod validate;

pub use config::Config;
pub use errors::Error;
pub use graph::{Graph, Stmt};
pub use plan::create_execution_plan;
pub use post_apply::create_post_apply_file;
pub use snapshot::read_snapshot_file;
pub use types::{Action, ActionType, QuerySongsByArtist, QuerySource, Track, TrackTuple};
