//! Verified core of a desktop Docker manager: the decisions and the text
//! that sit between the Docker daemon and the user interface. The desktop
//! shell performs the requests; this crate decides what to ask for and how
//! to show what comes back.
pub mod text;
pub mod stacks;
pub mod create;
pub mod monitor;
pub mod sessions;
pub mod stats;
pub mod containers;
pub mod images;
pub mod compose;
pub mod service;
pub mod actions;
pub mod resources;
