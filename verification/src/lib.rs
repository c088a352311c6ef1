//! The flat state-vector layout shared by RLGym's Python side and the Rust
//! simulator side, with its encoder and decoder, the ordering of decoded
//! players, and the integer parts of the gym-state conversion.
//!
//! Every record here is generic over the element type `T`: the values are
//! carried, copied and placed, never inspected, so the layout logic is stated
//! and proved once for whatever numeric type the caller uses.

pub mod layout;
pub mod records;
pub mod codec;
pub mod order;
pub mod gym;
