//! Core of a process supervisor: the per-slot worker state machine, the
//! bounded event ring, the length-prefixed frame codec, service-level
//! aggregation, the listening-socket registry and control-request routing.
pub mod codec;
pub mod config;
pub mod control;
pub mod event;
pub mod registry;
pub mod service;
pub mod worker;
