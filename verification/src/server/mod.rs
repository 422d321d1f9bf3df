//! The server that takes jobs for the artifact manager.
pub mod jobs;
pub mod origin;
pub mod routes;
pub mod server_laws;
pub mod state;
