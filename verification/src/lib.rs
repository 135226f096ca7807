//! Scaffolding of small Java learning projects: command-line parsing,
//! project configuration, file templates and release-version checks.

pub mod text;
pub mod args;
pub mod style;
pub mod templates;
pub mod project;
pub mod commands;
pub mod update;
pub mod laws;
