//! Core logic of a GraphQL subscription execution layer: schema metadata,
//! argument binding, guard evaluation, the error-latching subscription
//! stream pipeline, field dispatch, and the HTTP / WebSocket transport
//! decisions, each with a verified contract.

pub mod json;
pub mod error;
pub mod args;
pub mod guard;
pub mod subscription;
pub mod response;
pub mod registry;
pub mod http;
pub mod ws;
