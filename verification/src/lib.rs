//! A deterministic, headless harness that steps one simulated agent through a
//! fixed pipeline of subsystems over a read-only terrain snapshot.
//!
//! A planner builds a [`SimulatedPlayerBundle`] for the agent, makes a
//! [`Simulation`] from it, a terrain snapshot and a driver, and then steers
//! the agent between ticks and reads where it is after each. The driver is
//! the only part that is not in this crate: it does the work that a stage
//! stands for, such as integrating velocity or breaking a block. The crate
//! decides what is built, in which order the stages run, what each of them is
//! given, and what a tick leaves behind, and proves that it does so.
//!
//! - [`vector`], [`components`], [`bundle`]: the values that make up an agent.
//! - [`world`]: the world around a snapshot and the table that names it.
//! - [`schedule`]: the stages of a tick and their order.
//! - [`agent`]: the identity of the simulated agent.
//! - [`environment`]: the simulation itself.
//! - [`laws`]: what holds of every history of a simulation.
//! - [`error`]: how construction and ticks fail.

pub mod agent;
pub mod bundle;
pub mod components;
pub mod environment;
pub mod error;
pub mod laws;
pub mod schedule;
pub mod vector;
pub mod world;

pub use bundle::SimulatedPlayerBundle;
pub use environment::Simulation;
