//! Asset acquisition and launch preparation for a sandbox-game launcher:
//! platform rules, version catalogs, library and processor planning,
//! download decisions and launch-argument templating.

pub mod text;
pub mod rules;
pub mod error;
pub mod coordinate;
pub mod templater;
pub mod manifest;
pub mod processor;
pub mod checksum;
pub mod fetch;
pub mod libraries;
pub mod supervisor;
pub mod accounts;
pub mod events;
pub mod signin;
pub mod managers;
pub mod descriptor;
pub mod archive;
pub mod loader;
pub mod instance;
