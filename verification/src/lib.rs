//! Harbor: process supervision, routing and configuration logic.

pub mod text;
pub mod app;
pub mod paths;
pub mod namemap;
pub mod supervisor;
pub mod proxy;
pub mod detect;
pub mod token;
pub mod tls;
pub mod api;
pub mod service;
pub mod cli;
pub mod acme;
