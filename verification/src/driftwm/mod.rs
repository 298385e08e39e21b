//! Hiding and showing windows on the canvas of driftwm.
//!
//! The canvas is endless and knows no minimizing: a window is hidden by moving it to a far spot,
//! or by making it transparent. Coordinates are values of a number type `F` that are kept and
//! handed on, never computed with; what needs arithmetic is named symbolically, as a `Place` or a
//! `Side`.

pub mod commands;
pub mod session;
pub mod waiting;
pub mod wire;
