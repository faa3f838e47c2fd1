//! Host side of the fused gated-DeltaNet decode step: which kernel is loaded,
//! what is bound to its argument slots and how it is dispatched.

pub mod encoder;
pub mod gdn;
pub mod label;
pub mod laws;
pub mod size;
pub mod trace;
