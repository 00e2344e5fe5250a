//! A discrete-time simulator for small networks of spiking neurons joined by
//! plastic synapses, with reward-modulated spike-timing-dependent plasticity.
//!
//! Every real quantity (potential, time, weight, trace, reward) is a
//! fixed-point number: an `i64` count of millionths, combined with the
//! saturating operations of [`fixed`]. Neurons and synapses live in a
//! [`graph::SimulationGraph`] and are addressed by stable integer
//! identifiers. One tick of a [`graph::Simulation`] advances the clock,
//! integrates every neuron, delivers the spikes of the tick through the
//! synapses, lets the synapses decay and prunes the light ones, in that
//! order. The learning loop of [`learning`] turns the spikes of a
//! presentation window into a reward and applies the plasticity events that
//! were deferred until then.
//!
//! The modules, leaves first:
//!
//! - [`fixed`]: saturating fixed-point arithmetic.
//! - [`time`]: the clock.
//! - [`neurons`]: the leaky integrate-and-fire and the Izhikevich model.
//! - [`recorder`]: the bounded history of the spikes of a neuron.
//! - [`synapses`]: static and plastic synapses.
//! - [`structure`]: layers and columns.
//! - [`graph`]: the graph and the stages of a tick.
//! - [`learning`]: rewards and the presentation of classes.
//! - [`transcoder`]: encoders from characters and classes to input.
//! - [`network`]: builders of layered networks.
//! - [`analytics`]: series for telemetry.
//! - [`text`], [`tokenize`], [`equations`], [`equation`]: model equations
//!   written as text.

pub mod fixed;
pub mod time;
pub mod neurons;
pub mod recorder;
pub mod synapses;
pub mod structure;
pub mod graph;
mod random;
pub mod learning;
pub mod transcoder;
pub mod network;
pub mod analytics;
pub mod text;
pub mod tokenize;
pub mod equations;
pub mod equation;
