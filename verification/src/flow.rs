//! Flows: journeys through pages that a browser or a program goes through step by step.

pub mod transport;
pub mod wire_identity;
