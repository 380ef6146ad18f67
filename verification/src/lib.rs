//! Watchdog for a locally supervised process. The process exposes a small
//! control HTTP server; this library holds the decisions of the loop that
//! launches it, polls `/port_udp` for the UDP port it will use, triggers
//! `/start` while the port is still the sentinel `0`, and restarts the
//! process when the poll cannot reach it. The I/O itself (reading the
//! configuration file, the HTTP calls, spawning and killing the process,
//! sleeping) is carried out by the surrounding program; everything decided
//! from those observations is here, with its contract.

pub mod config;
pub mod supervisor;
pub mod text;
