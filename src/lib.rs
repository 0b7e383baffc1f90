//! Text rendering of box plots for sample summaries, and the error kinds of
//! the statistics core.
pub mod canvas;
pub mod error;
pub mod figure;
pub mod plot;
pub mod text;
