//! A self-hosted personal dashboard's core: configuration model and
//! validation, health derivation, threshold coloring, collection decisions,
//! and the view models the web UI and TUI render.

pub mod age;
pub mod api;
pub mod collector;
pub mod config;
pub mod db;
pub mod health;
pub mod int_parse;
pub mod laws;
pub mod num;
pub mod outside;
pub mod query;
pub mod report;
pub mod source;
pub mod text;
pub mod tui;
pub mod web;
