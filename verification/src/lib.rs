//! Edge-detecting tracker for discrete input signals.
//!
//! A stream of raw press/release events is folded, once per update cycle,
//! into three queryable views: the symbols currently held, the symbols that
//! became held this cycle, and the symbols released this cycle.

pub mod input;
pub mod keyboard;
