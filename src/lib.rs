//! Data plane of a multi-tenant forward proxy: the user directory, the ACL,
//! the connection registry, the statistics counters, the HTTP and SOCKS5
//! front-end decisions, the tunnel's per-direction step and the control
//! session's message handling.
pub mod text;
pub mod hostname;
pub mod headers;
pub mod model;
pub mod error;
pub mod request;
pub mod directory;
pub mod registry;
pub mod pipeline;
pub mod acl;
pub mod stats;
pub mod tunnel;
pub mod endpoints;
pub mod session;
pub mod config;
