//! Name-based discovery over a Bluetooth Low Energy central, plus checked
//! constructors for the core BLE value types.
//!
//! The discovery logic is pure: callers collect the currently visible
//! peripherals together with their advertised properties into plain values,
//! and the search functions select matches by substring on the advertised
//! local name. A small state machine schedules the bounded-retry variant,
//! deciding for each poll cycle whether it still fits before the deadline.

pub mod errors;
pub mod retry;
pub mod search;
pub mod values;
