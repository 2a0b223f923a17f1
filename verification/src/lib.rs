//! The logic of an agent orchestrator: projects and the coding agents that work
//! in them, each in a terminal and, mostly, in a git worktree of its own.
//!
//! Everything here computes. What reads, writes, runs or draws is told what to
//! do by the values that the functions return, and hands back what came of it.

pub mod assets;
pub mod dialogs;
pub mod editing;
pub mod input;
pub mod log;
pub mod offsets;
pub mod outer_laws;
pub mod panel;
pub mod paths;
pub mod planner;
pub mod pointer;
pub mod start;
pub mod state;
pub mod terminal;
pub mod text;
pub mod text_laws;
pub mod theme;
pub mod views;
pub mod workspace;
