//! Command handlers of a desktop application's backend.
//!
//! A command is a function that the user interface invokes by name and whose
//! return value is handed back to it. Every handler here is a pure function
//! of its arguments, and its contract says exactly what it returns.

pub mod commands;
