//! A verified core for a minimal Diameter (RFC 6733) server with the Gy
//! credit-control application: bit-exact parsing of message headers and
//! AVPs, a streaming message builder with back-patched lengths and 4-byte
//! padding, a typed Credit-Control-Request decoder, and the per-request
//! dispatch logic that composes the answers.

pub mod avp_header;
pub mod avp_parsers;
pub mod base;
pub mod bytes;
pub mod gy;
pub mod message_builder;
pub mod message_header;
pub mod server;
