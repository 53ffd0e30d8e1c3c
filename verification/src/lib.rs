//! A cooperative scheduler for a single-core board with one push-button.
//!
//! The crate holds the decisions of the firmware, free of any hardware
//! access: which task runs next, which sleeping task is woken when, how the
//! deadline timer is to be programmed, and how presses of the button are
//! classified. Whoever owns the hardware calls in from the main loop and
//! from the interrupt handlers and carries out what comes back.

pub mod button;
pub mod collections;
pub mod deadline;
pub mod executor;
pub mod gesture;
pub mod led;
pub mod sensor;
pub mod time;
