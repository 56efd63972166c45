//! The configuration of a mock server: its routes and their responses.
pub mod body;
pub mod method;
pub mod status_code;
pub mod response;
pub mod spec;
pub mod mock_config;
pub mod format;
pub mod reload;
