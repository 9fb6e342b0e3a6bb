//! Confinement of file access to named domains: attack-pattern screening,
//! glob-based boundaries, a protocol for opening files without a
//! check-then-use race, the domain registry and placeholder expansion.
pub mod text;
pub mod patterns;
pub mod paths;
pub mod config;
pub mod vault;
pub mod model;
pub mod registry;
pub mod boundary;
pub mod open;
pub mod alias;
pub mod session;
pub mod settings;
pub mod guide;
pub mod present;
pub mod watch;
pub mod notes;
pub mod inject;
