//! A small IRC line-protocol relay library: a verified codec between wire
//! lines and typed messages, per-session command application, frame
//! construction, and the routing rules of the broadcast fabric.

pub mod apply;
pub mod client;
pub mod frames;
pub mod message;
pub mod parse;
pub mod roundtrip;
pub mod route;
pub mod session;
pub mod serialize;
pub mod strutil;
pub mod verbs;
