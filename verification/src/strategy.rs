//! The strategy capability: a name and a per-tick handler.
//!
//! A strategy is stateful; the engine invokes it once for every tick of
//! a symbol it was bound to, and it answers with at most one order. The
//! trait carries no contract: implementations live with the engine's
//! callers, which own the floating-point arithmetic a real strategy
//! needs.

use vstd::prelude::*;

use crate::types::{NameType, Order, TickData};

verus! {

/// A trading strategy: a 32-byte name and a tick handler that emits
/// zero or one order.
pub trait Strategy {
    /// The strategy's fixed name, stamped on every order it emits.
    fn name(&self) -> NameType;

    /// Handles one tick, answering with at most one order.
    fn update(&mut self, tick: &TickData) -> Option<Order>;
}

} // verus!
