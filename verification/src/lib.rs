//! Verified core of a small desktop todo/counter backend.
//!
//! The persistent state (a todo table and a singleton counter row) is
//! modelled by [`store::Store`], whose operations carry exact contracts.
//! The command layer in [`commands`] maps named commands onto those
//! operations and flattens failures to plain text, and [`chart`] holds the
//! logic that reshapes fetched monthly price data for display. Database
//! and network traffic themselves happen outside this crate; the functions
//! here state and prove what every such interaction must do to the state.

pub mod chart;
pub mod commands;
pub mod laws;
pub mod store;
