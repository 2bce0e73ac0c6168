//! The HTTP kernel's verified decisions: routing, CORS, versioning, cookies,
//! error status codes and server configuration.
pub mod routing;
pub mod cors;
pub mod versioning;
pub mod extract;
pub mod errors;
pub mod server;
pub mod response;
