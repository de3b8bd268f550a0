//! Verified core of a terminal viewer for a plain-text task list.
//!
//! A tasks file holds one task per line, written `<marker> - <description>`.
//! This crate provides the marker codec, the line parser, the status-partitioned
//! task store, and the selection / tab cursor state machines. Rendering and
//! file access are left to an unverified shell around this library.

pub mod app;
pub mod tabs;
pub mod task;
pub mod tasklist;
