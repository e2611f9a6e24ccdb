//! Ktesio: manifests, lockfiles and install planning for agent skills.

pub mod text;
pub mod name_map;
pub mod error;
pub mod scan;
pub mod manifest;
pub mod lockfile;
pub mod install_target;
pub mod sort;
pub mod discovery;
pub mod git;
pub mod skills_sh;
pub mod install;
pub mod init;
pub mod install_channel;
pub mod version;
pub mod archive;
pub mod self_update;
pub mod update_check;
pub mod ui;
pub mod table;
pub mod doctor;
pub mod list;
pub mod show;
pub mod maintain;
pub mod publish;
pub mod search;
pub mod laws;
