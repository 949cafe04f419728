//! Simulation of a layered spiking neural network of leaky integrate-and-fire
//! neurons, with bit-level fault injection into its numeric state and into the
//! arithmetic units the neurons compute with.
//!
//! Every real number of the network is held as the bit pattern of an IEEE-754
//! binary64 value (`u64`). Faults are bit operations on those patterns; the
//! arithmetic itself is supplied by the caller through [`float::Fpu`].

pub mod fault;
pub mod float;
pub mod components;
pub mod neuron;
pub mod event;
pub mod layer;
pub mod network;
pub mod builder;
pub mod report;
pub mod menu;
mod random;
