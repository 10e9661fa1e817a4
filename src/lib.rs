//! A record-based, branchable workflow state store.
//!
//! Flows are append-only logs of step records guarded by an optimistic
//! version counter; a flow can be branched at any cursor, pruned from a
//! cursor, or deleted (orphaning its children). An engine layer on top
//! decides cursors, step ordering and the current step after rehydration.
pub mod admetsa;
pub mod blobs;
pub mod domain;
pub mod engine;
pub mod errors;
pub mod laws;
pub mod outside;
pub mod service;
pub mod services;
pub mod steps;
pub mod store;
pub mod text;
pub mod workflow;
