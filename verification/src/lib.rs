//! Per-tenant, read-only database credentials for the replicas of a
//! family of networks, and the metering of what tenants consume.
//!
//! The library holds the decisions: which statements provision and
//! remove a credential and in which order a transaction runs them, how
//! the reconciliation of a resource proceeds and when its deletion guard
//! may go, and how cumulative execution-time counters become consumption
//! units. The caller performs the steps on the database and on the
//! control plane and reports what came of them.

pub mod catalog;
pub mod config;
pub mod controller;
pub mod counters;
pub mod error;
pub mod identity;
pub mod metering;
pub mod metrics;
pub mod postgres;
pub mod rate;
pub mod snapshot;
pub mod state;
pub mod text;

pub use config::Config;
pub use controller::{
    error_policy, Action, DbSyncPort, DbSyncPortSpec, DbSyncPortStatus, Reconciliation, Step,
    Verdict, DB_SYNC_PORT_FINALIZER,
};
pub use error::Error;
pub use metering::{Metered, MeteringEngine};
pub use metrics::{get_project_id, Metrics};
pub use postgres::{Postgres, UserStatements};
pub use rate::Rate;
pub use state::State;
