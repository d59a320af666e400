//! A minimal agent that holds one secret, a database connection string, and
//! discloses it to callers that present a shared credential.
//!
//! The crate holds the decisions of the agent: how the configuration is
//! resolved from its sources, how the TLS material is chosen, how a request
//! is authorised and answered, and how a connection moves from accept to
//! close. Reading the environment, files and sockets is left to the caller.

pub mod address;
pub mod auth;
pub mod config;
pub mod connection;
pub mod handler;
pub mod scan;
pub mod startup;
pub mod text;
pub mod tls;
