//! Browsing and editing of SSH client host aliases spread over a root
//! configuration file and the files it pulls in with `Include`.
pub mod text;
pub mod paths;
pub mod ssh_config;
pub mod form;
pub mod config;
pub mod mutation;
pub mod laws;
pub mod navigation;
pub mod status;
pub mod session;
