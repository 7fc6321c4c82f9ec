//! Building blocks for Axum HTTP servers: CORS presets, request-id layers,
//! health-probe decisions and server error reporting, each with a checked
//! contract.

pub mod headers;
pub mod cors_layer;
pub mod cors;
pub mod request_id;
pub mod health;
pub mod server;
pub mod cors_laws;
