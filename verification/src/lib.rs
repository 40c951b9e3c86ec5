//! Typed client library for the Soracom IoT connectivity management API.
//!
//! The library covers the authenticated request pipeline: building requests
//! (URLs, headers, JSON bodies), interpreting responses (status handling and
//! JSON decoding into typed records), the query-string encoding of optional
//! list filters, and a structured error taxonomy.  Performing the actual HTTP
//! exchange is left to the caller, who hands each response (status and body)
//! back to the client.

use vstd::prelude::*;

pub mod client;
pub mod codec;
pub mod error;
pub mod json;
pub mod model;
pub mod object;
pub mod option;
pub mod sandbox;
pub mod textenc;
pub mod util;

verus! {

/// Default production API endpoint host.
pub const SORACOM_API_ENDPOINT: &'static str = "api.soracom.io";

/// Global coverage API endpoint host.
pub const SORACOM_GLOBAL_API_ENDPOINT: &'static str = "g.api.soracom.io";

/// Sandbox (disposable test environment) API endpoint host.
pub const SORACOM_SANDBOX_API_ENDPOINT: &'static str = "api-sandbox.soracom.io";

/// Header name carrying the API key on authenticated requests.
pub const SORACOM_API_HEADER_API_KEY: &'static str = "X-Soracom-API-Key";

/// Header name carrying the session token on authenticated requests.
pub const SORACOM_API_HEADER_TOKEN: &'static str = "X-Soracom-Token";

} // verus!
