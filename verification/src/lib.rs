//! Core library of a GPU compute-marketplace worker agent.
//!
//! The agent discovers local GPU hardware, authenticates with a central
//! platform over a typed wire protocol, accepts compute tasks, produces
//! a proof that real GPU work occurred, and tracks the resulting
//! earnings.
//!
//! The modules, leaves first: [`json`] is the canonical codec under the
//! wire protocol; [`money`] the fixed-point amounts; [`protocol`] the
//! message envelope and payloads; [`pow`] the difficulty-masked hash
//! search; [`auth`] the agent's keypair and identity; [`hal`] the
//! uniform device view and selection rules; [`monitor`] the telemetry
//! ring; [`earnings`] the ledger; [`reconnect`] the backoff schedule;
//! [`executor`] and [`agent`] the task and lifecycle decisions; and
//! [`outside`] the trusted boundary to the outside crates.

pub mod agent;
pub mod auth;
pub mod config;
pub mod daemon;
pub mod earnings;
pub mod error;
pub mod executor;
pub mod hal;
pub mod json;
pub mod money;
pub mod monitor;
pub mod outside;
pub mod pow;
pub mod protocol;
pub mod reconnect;
pub mod textutil;
