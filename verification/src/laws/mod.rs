//! What the library promises, stated over inputs and results alone.
//!
//! Each law here says of an operation what its result has to satisfy, or how two of its results
//! relate, in terms of the fields of its inputs.

pub mod canvas;
pub mod commands;
pub mod configuration;
pub mod memory;
pub mod places;
pub mod protocol;
pub mod texts;
