//! Customer-side daemon of the membrane cloud.

pub mod audit;
pub mod cli;
pub mod config;
pub mod deps;
pub mod failure;
pub mod handlers;
pub mod hex;
pub mod lines;
pub mod order;
pub mod pairing;
pub mod pathname;
pub mod paths;
pub mod resolve;
pub mod rpc;
pub mod service;
pub mod text;
pub mod tunnel;
pub mod wire;
pub mod x509;
