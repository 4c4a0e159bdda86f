//! Muskingum-Cunge channel routing over a river network: the rules of a run, verified.
//!
//! Arithmetic on flows and depths is left to the caller, who hands it in as closures over a
//! number type of their choice; what stands here is which value goes where, in what order, and
//! when a run is done.

pub mod cli;
pub mod cli_laws;
pub mod command;
pub mod config;
mod fx;
pub mod io;
pub mod kernel;
pub mod network;
pub mod routing;
pub mod text;
pub mod text_laws;
