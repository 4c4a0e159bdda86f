//! What goes in and out of a run.

pub mod csv;
pub mod file_laws;
pub mod flows;
pub mod results;
