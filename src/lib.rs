//! Verified core of an init-style service manager.
//!
//! - Unit model: names and types (`unit_base`), settings (`unit_config`,
//!   `service_config`, `socket_load`, `conditions`), the unit entry over its
//!   type-specific sub-unit (`unit`) and the decision ladders of its
//!   lifecycle (`lifecycle`).
//! - Store: the relation algebra (`relation`), the dependency multigraph
//!   with inverse pairing and ordering-cycle refusal (`dep_graph`), the
//!   pid-to-unit watch table (`child_watch`) and the unit store that ties
//!   them to names (`unit_db`), with the load queue (`unit_load`).
//! - Job engine: merge rules, admission modes, entailed jobs, isolation and
//!   completion (`job`), driven through the manager surface
//!   (`unit_manager`, `manager`, `execute`).
//! - Supervision: start-rate limiting (`start_limit`), the child's
//!   environment, arguments, steps and descriptors (`spawn`, `fd_shift`),
//!   a service's main and control pids (`service_pid`), the readiness
//!   protocol (`notify`) and the device monitor's message framing
//!   (`device_monitor`).
//! - Reliability: last-frame records (`rentry`), the journal's record
//!   framing (`journal`) and named tables (`table`, `data`).

pub mod relation;
pub mod dep_graph;
pub mod unit_base;
pub mod errors;
pub mod lifecycle;
pub mod child_watch;
pub mod start_limit;
pub mod job;
pub mod notify;
pub mod rentry;
pub mod table;
pub mod unit_config;
pub mod data;
pub mod manager;
pub mod unit_db;
pub mod socket_load;
pub mod service_config;
pub mod execute;
pub mod unit;
pub mod spawn;
pub mod conditions;
pub mod unit_manager;
pub mod journal;
pub mod fd_shift;
pub mod device_monitor;
pub mod service_pid;
pub mod unit_load;
