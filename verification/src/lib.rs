//! A verified simulator for a chain of linked keypads.
//!
//! A command string of directional characters drives the first ("manual")
//! keypad of a chain; each activation forwards a derived signal to the next
//! keypad, and the final keypad's activations are collected by a display
//! sink. The crate proves the movement, error and propagation rules of the
//! chain, together with the replay machinery that scrubs a command string
//! through it.

pub mod chain;
pub mod command;
pub mod keypad;
pub mod sim;
