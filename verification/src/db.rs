//! The controller's records and what is done to them.
//!
//! Some rules are not decided by the operations but belong to the tables, and this crate takes
//! them as given:
//!
//! - Identifiers are unique in each table, and so are the names of machines and of
//!   administrators without regard to case, the addresses, and the hashes of links and
//!   credentials.
//! - Rows that name a machine or an administrator need it to be there when they are entered.
//! - With a machine go its guest tools, policies, rules, samples, links, snapshots and name
//!   servers; its jobs and the complaints about it stay without it. With an administrator go
//!   the sessions; settings stay without a name.

pub mod access;
pub mod addresses;
pub mod admins;
pub mod api_keys;
pub mod blacklist;
pub mod guest_tools;
pub mod history;
pub mod inventory;
pub mod job_recovery;
pub mod jobs;
pub mod keys;
pub mod links;
pub mod lookups;
pub mod machines;
pub mod metrics;
pub mod network_security;
pub mod orders;
pub mod pools;
pub mod protection;
pub mod queue;
pub mod records;
pub mod removal;
pub mod rotation;
pub mod rows;
pub mod settings;
pub mod store;
pub mod tokens;
pub mod tools;
pub mod vms;
