//! The task lifecycle engine of a confidential-computing platform: the task
//! state machine, the services around it, and the audit trail.

pub mod access_control;
pub mod address;
pub mod attestation;
pub mod audit;
pub mod clock;
pub mod connect;
pub mod dcap;
pub mod entities;
pub mod error;
pub mod files;
pub mod frontend;
pub mod ids;
pub mod kv;
pub mod lifecycle;
pub mod management;
pub mod names;
pub mod repository;
pub mod scheduler;
pub mod staged_file;
pub mod staging;
pub mod table;
pub mod task;
pub mod wire;
