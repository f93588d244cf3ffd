//! A multi-level, biologically-inspired scoring pipeline: leaky
//! integrate-and-fire spiking units organized into topic networks, domain
//! networks and knowledge lobes, which turn a text event into anomaly and
//! pattern scores and a synthesized textual conclusion, plus a small
//! proof-of-work ledger kept as an independent exercise.
//!
//! Continuous quantities (potentials, weights, ratios) are carried as
//! fixed-point integers in units of one millionth, so that every numeric
//! step has an exact arithmetic meaning.

pub mod block;
pub mod config;
pub mod data_models;
pub mod dsn;
pub mod fixed;
pub mod identity;
pub mod ksl;
pub mod ledger;
pub mod neuron;
pub mod snn_quantum_pocket;
pub mod synthesis;
pub mod text;
pub mod transaction;
pub mod topical_bnn;
pub mod trusted;
pub mod utils;

pub use fixed::SCALE;
