//! A project manager for interpreted-language projects: a manifest of declared
//! packages and scripts, kept in step with an isolated environment as packages are
//! added, removed and installed, plus version bumping and project scaffolding.

pub mod commands;
pub mod ledger;
pub mod manifest;
pub mod scaffold;
pub mod table;
pub mod text;
pub mod version;
