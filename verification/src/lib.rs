pub mod text;
pub mod decimal;
pub mod smap;
pub mod state;
pub mod config;
pub mod laws;
pub mod orchestrator;
pub mod json;
pub mod json_args;
pub mod paths;
pub mod ue_client;
pub mod lifecycle;
pub mod projects;
pub mod workspace;
pub mod samples;
pub mod verify;
pub mod process;
pub mod watcher;
pub mod submodule;
pub mod server;
pub mod cli;
