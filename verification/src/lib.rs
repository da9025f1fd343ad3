//! Data-plane core of a transparent mesh sidecar proxy.

pub mod error;
pub mod hex;
pub mod literal;
pub mod net;
pub mod proxy;
pub mod relay;
pub mod source;
pub mod text;
pub mod traceparent;
pub mod transparent;
