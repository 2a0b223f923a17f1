//! Turns a free-form task description into a concrete workspace for an agent.

pub mod command;
pub mod git;
pub mod laws;
pub mod plan;
pub mod replies;
pub mod resolve;
pub mod steps;
pub mod words;
