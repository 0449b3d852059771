//! Renders a structured HTTP request description as a shell-ready `curl`
//! command line, with `{{name}}` / `{{name:default}}` variable templating,
//! query-string assembly and POSIX single-quote escaping.
use vstd::prelude::*;

pub mod model;
pub mod template;
pub mod quote;
pub mod outside;
pub mod builder;
pub mod laws;

pub use model::{
    CurlCommand, CurlOption, Environment, EnvironmentVariable, FormField, Header, HttpMethod,
    QueryParam, RequestBody,
};

verus! {

/// Builds `curl` command lines from request descriptors.
pub struct CommandBuilder;

} // verus!
