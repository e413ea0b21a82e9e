//! Verified core of a feed-forward digit classifier.
//!
//! The library holds everything about the network that can be stated and
//! proved over exact values: the sample abstraction (pixel grids flattened to
//! a dense 0/1 feature vector), the shape invariants of the weight and bias
//! stack, the per-epoch training schedule, the random selection of training
//! samples, and the scoring of a validation pass. The floating-point kernels
//! that consume these decisions live with the surrounding program.

pub mod digit;
pub mod generic_lib;
pub mod neural_network;
