//! Core of a CTA (Commodity Trading Advisor) execution engine.
//!
//! The crate holds the verified parts of the engine: the fixed-layout
//! market-data and order types with their wire codecs, the symbol-shard
//! routing function, the ring buffer behind the rolling statistics, the
//! contract-fee registry, the position bookkeeping rules, and the
//! dispatcher's registration and lifecycle state machine.
//!
//! Prices travel through this crate as IEEE-754 double bit patterns held
//! in `u64` values: the verifier admits no floating-point arithmetic, so
//! every arithmetic step on prices lives with the caller, while layout,
//! routing, counting and all structural decisions are proved here.

pub mod aberration;
pub mod codec;
pub mod engine;
pub mod fees;
pub mod fp;
pub mod ledger;
pub mod rolling;
pub mod shard;
pub mod strategy;
pub mod types;
