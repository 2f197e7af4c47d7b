//! The decisions of a minimal Linux container runtime, verified.

pub mod action;
pub mod args;
pub mod capabilities;
pub mod child;
pub mod cstring;
pub mod handshake;
pub mod hostname;
pub mod kernel;
pub mod laws;
pub mod mounts;
pub mod parent;
pub mod path;
pub mod resources;
pub mod run;
pub mod syscalls;
pub mod text;
pub mod traces;
pub mod userns;
