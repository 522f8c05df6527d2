//! Client-side dispatch of requests over a multiplexed, flow-controlled
//! connection: request translation, the pool-guard discipline of a dispatch
//! attempt, the body flow-control loop and the response payload rule.

pub mod chunk;
pub mod config;
pub mod dispatch;
pub mod error;
pub mod headers;
pub mod sender;
