//! An event-sourced incident-response agent core.
//!
//! Facts arrive from alert sources, are normalized into canonical alert
//! records, matched against incident patterns, planned against runbooks
//! (or a validated LLM proposal), and executed step by step. Every state
//! change is an event in an append-only log; every read model is a pure
//! projection of that log.

pub mod adapters;
pub mod agent;
pub mod commands;
pub mod dispatch;
pub mod effects;
pub mod event_log;
pub mod executor;
pub mod facts;
pub mod json;
pub mod llm;
pub mod planner;
pub mod projections;
pub mod registry;
pub mod rete;
pub mod rules;
pub mod runbooks;
pub mod strutil;
pub mod tools;
