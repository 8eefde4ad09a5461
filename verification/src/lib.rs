//! The core of a runtime for AWS Lambda functions.
//!
//! [`requests`] holds the requests that the runtime API takes, [`client`] the stream of events,
//! [`runtime`] the course of a run, [`handler`] what is run, [`config`] the configuration of a
//! function, [`attribute`] the `#[lambda]` attribute, and [`source`] which text the attribute can
//! read. [`asking`] writes down what a stream asks for. [`uri`] and [`message`] hold what the
//! `http` crate reads and builds, as plain values.
pub mod asking;
pub mod attribute;
pub mod client;
pub mod config;
pub mod handler;
pub mod message;
pub mod requests;
pub mod runtime;
pub mod source;
pub mod uri;

pub use attribute::{lambda, try_lambda};
pub use client::{Client, EventClient, EventStream};
pub use config::Config;
pub use handler::{handler_fn, Handler, HandlerFn, HttpHandler};
pub use runtime::LambdaCtx;
