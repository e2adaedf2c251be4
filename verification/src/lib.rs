//! A minimal HTTP/1.x message model, request parser and response builder,
//! together with the decision logic of a bounded worker pool and of the
//! connection dispatcher that feeds it.

pub mod text;
pub mod common;
pub mod request;
pub mod response;
pub mod handler;
pub mod pool;
pub mod server;
