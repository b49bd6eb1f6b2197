//! Multi-session pseudo-terminal core: a registry of live shell sessions keyed
//! by caller-chosen ids (`registry`), the state machine of each session's
//! output reader (`reader`), session settings (`session`), and the laws that
//! tie them together (`laws`).
//!
//! Everything that touches the operating system (opening a pty, spawning the
//! shell, reading and writing bytes) is done by the host around this crate;
//! the crate decides what happens with each outcome.
//!
//! Beside it stands the logic of the surrounding desktop tool: chat history
//! and titles (`chat`, `db`), directory listings and file-operation results
//! (`file_ops`), the project-directory rule (`config`), model prompts
//! (`llm`), tech-stack refinement (`scraper`), project setup reports
//! (`commands`, `models`), and which files are worth indexing (`ai_service`).

pub mod ai_service;
pub mod chat;
pub mod commands;
pub mod config;
pub mod db;
pub mod error;
pub mod file_ops;
pub mod laws;
pub mod llm;
pub mod models;
pub mod reader;
pub mod registry;
pub mod scraper;
pub mod session;
pub mod text;
