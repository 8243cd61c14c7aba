//! The decision-making core of a PlanetSide 2 clip recorder, verified with
//! Verus: settings and their normalisation, the Census event stream's
//! classification and the reference data it is read against, clip naming,
//! the recorder back ends' command lines and session state machines, the
//! clip database's schema and organisation rules, background jobs, montages
//! and the notifications and launchers around them. Everything that talks to
//! the machine or the network is left to the callers, which hand the library
//! plain values.
use vstd::prelude::*;

pub mod autostart;
pub mod capture;
pub mod census;
pub mod census_rows;
pub mod command_runner;
pub mod config;
pub mod clip_naming;
pub mod collections;
pub mod db;
pub mod dirs;
pub mod discord;
pub mod event_log;
pub mod gsr;
pub mod honu;
pub mod hotkey;
pub mod ip;
pub mod jobs;
pub mod launcher;
pub mod montage;
pub mod notifications;
pub mod obs;
pub mod platform;
pub mod settings;
pub mod text;

verus! {

} // verus!
