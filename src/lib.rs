//! Acquisition and activation of developer runtimes: archive detection and
//! extraction, resumable fetch decisions, install-directory normalization,
//! shell-profile activation and the install ledger.

pub mod text;
pub mod lines;
pub mod catalog;
pub mod releases;
pub mod profile;
pub mod archive;
pub mod fetch;
pub mod vars;
pub mod ledger;
pub mod layout;
pub mod pipeline;
pub mod repository;
pub mod environment;
pub mod args;
