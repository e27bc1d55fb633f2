//! Turn orchestration and realtime broadcast engine for a multiplayer
//! turn-based game service.
//!
//! The library tracks game sessions, players, and per-player log visibility,
//! drives the session lifecycle (create, play a command, undo, concede)
//! against an external rules engine, and computes the per-audience update
//! messages that are fanned out over a publish/subscribe channel.
//!
//! All state-changing logic is pure: the relational store is modelled in
//! memory, engine calls are represented as request/response values, and the
//! surrounding process performs the actual network and database work.

pub mod auth;
pub mod color;
pub mod config;
pub mod controller;
pub mod engine;
pub mod errors;
pub mod game;
pub mod mail;
pub mod models;
pub mod store;
pub mod websocket;
