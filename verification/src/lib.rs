//! Discrete core of an elevator simulation: passengers and their groups,
//! floor queues, elevator cabins, dispatching controllers, population
//! generation and the request handling of the simulation server.

pub mod random;
pub mod human;
pub mod entity;
pub mod direction;
pub mod queue;
pub mod plotter;
pub mod elevator;
pub mod simple_controller;
pub mod boarding;
pub mod nearest_car;
pub mod population;
pub mod generator;
pub mod system;
pub mod state_space;
pub mod text;
pub mod server;
pub mod evolution;
pub mod laws;
