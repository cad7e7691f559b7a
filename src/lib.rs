//! Core of a command runner that re-executes a shell command on a timer,
//! bounds how many executions are in flight, keeps the history of every
//! execution, and lets a viewer navigate that history.

pub mod action;
pub mod duration;
pub mod record;
pub mod state;
pub mod store;
