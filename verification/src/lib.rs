//! Core of a per-process resource monitor.
//!
//! The library observes every running process on a host through snapshots of
//! raw kernel counters, derives instantaneous usage rates from consecutive
//! snapshots, groups processes into logical applications, and decides how
//! privileged lifecycle actions (terminate, stop, kill, continue) are carried
//! out, including the single permission-escalation retry.
//!
//! Everything that touches the outside world (spawning the privileged
//! collector and helper binaries, reading and writing their byte streams)
//! lives outside this crate; the crate itself works on plain values and is
//! verified end to end.

pub mod action;
pub mod apps;
pub mod codec;
pub mod process;
pub mod sample;
pub mod store;
pub mod util;
