//! Decision core of a virtual machine host controller: release archives and the
//! privileged update helper, durable update status, host inventory, configuration
//! and the record store of the controller.
//!
//! Everything here computes on plain values. Files, processes, the network and the
//! SQL engine are driven by the program around the library.

pub mod activation;
pub mod archive;
pub mod config;
pub mod db;
pub mod digest;
pub mod error;
pub mod extraction;
pub mod figures;
pub mod health;
pub mod host;
pub mod host_report;
pub mod host_tables;
pub mod ids;
pub mod journal;
pub mod json;
pub mod net;
pub mod numbers;
pub mod package_run;
pub mod packages;
pub mod paths;
pub mod plan;
pub mod policy;
pub mod recovery;
pub mod report;
pub mod request;
pub mod rollback;
pub mod semver;
pub mod status;
pub mod table;
pub mod text;
pub mod wording;
