//! A non-blocking request/response bridge for a tick-driven application.
//!
//! Collaborators attach request descriptors to arena slots; a dispatcher pass
//! hands each request to background work and marks the slot inflight; a poller
//! pass records the outcome at the same slot exactly once.  Decode helpers turn
//! a recorded outcome into text or a parsed document, and a small view model
//! drives the surrounding "now on air" application.

pub mod bridge;
pub mod content;
mod json;
pub mod laws;
pub mod nhk;
mod request;
mod response;
mod service;

pub use bridge::Bridge;
pub use json::json_ok;
pub use nhk::{Action, Error, Message, NhkView};
pub use request::{HttpRequest, Method, ReqwestRequest};
pub use response::ReqwestBytesResult;
pub use service::Service;
