//! Core of a small bearer-token tool server: the authentication gate, the
//! request/response envelopes and error taxonomy, the tool registry, and a
//! JSON-Schema-subset argument validator.
//!
//! - [`json`] holds the model of a JSON value that every schema, argument
//!   object and response payload lives in.
//! - [`auth`] holds the credentials, the credential store, and the
//!   validation of each request's `Bearer` token.
//! - [`validate`] checks an argument object against a tool's declared
//!   schema and produces the exact failure message of the first violation.
//! - [`registry`] holds the tool descriptors, built once at startup.
//! - [`protocol`] holds the envelopes and routes a parsed request.
//! - [`tools`] holds the built-in capabilities and the startup bootstrap.
//!
//! The transport (HTTP, serialization, the executors' event loop) sits
//! outside and hands these modules plain values.

pub mod auth;
pub mod json;
pub mod protocol;
pub mod registry;
pub mod text;
pub mod tools;
pub mod validate;

pub use json::{Json, JsonNum, JsonV, NumRepr, NumV};
pub use protocol::{
    auth_error_envelope, finish_invoke, handle_discover, handle_invoke_lookup, health_check,
    is_param_validation_error, route_request, ErrorDetails, McpRequest, McpResponse,
    RouteOutcome, ERROR_AUTH, ERROR_INVALID_PARAMS, ERROR_INVALID_REQUEST,
    ERROR_METHOD_NOT_FOUND, ERROR_TOOL_EXECUTION,
};
pub use registry::{Registry, ToolDefinition};
