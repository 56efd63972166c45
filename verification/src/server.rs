//! Matching a request against the routes.
pub mod url;
pub mod router_node;
pub mod router;
pub mod server_struct;
pub mod laws;
