#![allow(non_snake_case)]
#![allow(non_camel_case_types)]

pub mod gene;
pub mod neuron;
pub mod grid;
pub mod random;
pub mod cell;
pub mod arena;
pub mod config;
pub mod population;
pub mod engine;
