//! Application configuration. The surrounding program reads the environment
//! and fills this in; the core only carries the values.

use vstd::prelude::*;

verus! {

/// Application configuration loaded from environment variables.
#[derive(Debug, PartialEq)]
pub struct AppConfig {
    pub database_url: String,
    pub jwt_secret: String,
    pub server_host: String,
    pub server_port: u16,
}

} // verus!
