//! The workspace: projects and agents, their terminals, and what the user does
//! with them.

pub mod agents;
pub mod changes;
pub mod desk;
pub mod drag;
pub mod env;
pub mod ids;
pub mod keeping;
pub mod laws;
pub mod order;
pub mod panels;
pub mod projects;
pub mod removal;
pub mod running;
pub mod show;
pub mod showing;
pub mod spawn;
pub mod spawning;
pub mod tabs;
pub mod tasks;
pub mod variables;
