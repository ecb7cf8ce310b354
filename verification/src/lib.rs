//! Declarative HTTP requests: a manifest describes a request's method,
//! url, headers, queries, body and named parameters, with template
//! expressions in any field; this library resolves the parameters, builds
//! the layered template context, renders every field in a fixed order,
//! and decides everything the wire exchange needs. The pieces:
//!
//! - [`json`]: the JSON value type, its model, and a verified serializer;
//! - [`dict`]: an insertion-ordered string map;
//! - [`manifest`] and [`manifest_json`]: the manifest data model and its
//!   JSON shape for template contexts;
//! - [`template`]: the template engine adapter;
//! - [`params`]: parameter resolution decisions and candidate validation;
//! - [`render`]: the request template renderer;
//! - [`http`]: the execution engine's decisions;
//! - [`config`]: the user configuration;
//! - [`error`]: the error kinds.
//!
//! Sending requests, reading manifests from disk, and prompting are the
//! embedding program's work; this crate decides, the program performs.

pub mod config;
pub mod dict;
pub mod error;
pub mod http;
pub mod json;
pub mod manifest;
pub mod manifest_json;
pub mod params;
pub mod render;
pub mod template;
pub mod text;
