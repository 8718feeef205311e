//! Client-side orchestration of a rolling replacement of the workloads behind
//! a service's target group: planning the rollout, deciding each remote step
//! and its rollback, and watching each new workload's boot events until it is
//! healthy. Identifier resolution and the parsing of user-facing values sit
//! beside it.
pub mod text;
pub mod ids;

pub mod resolve;
pub mod resources;

pub mod monitor;
pub mod plan;
pub mod rollout;

pub mod params;
pub mod registry;
pub mod config;
pub mod domain;
pub mod decl;
pub mod service;
pub mod response;
