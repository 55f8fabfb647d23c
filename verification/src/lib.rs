//! The structural core of an analog circuit simulator.
//!
//! A netlist is read into statements (`netlist`), elaborated into a flat list of
//! devices and built into a circuit (`circuit`). The system of equations of a circuit
//! is assembled in sparse form (`mna`, `stamp`), solved by solvers that check its
//! pattern first (`solver`) under the control of decisions made here (`control`,
//! `analysis`), and the results are numbered, kept and laid out as text
//! (`result_store`, `psf`).
//!
//! Nothing in this crate computes with the numbers of a circuit: they are text
//! (`number`) or values of a scalar type that the caller chooses.

pub mod analysis;
pub mod bsim;
pub mod circuit;
pub mod control;
pub mod mna;
pub mod names;
pub mod netlist;
pub mod number;
pub mod psf;
pub mod result_store;
pub mod session;
pub mod solver;
pub mod span;
pub mod stamp;
pub mod text;
