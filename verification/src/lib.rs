//! A minimal HTTP request-dispatch engine.
//!
//! Given an inbound request, the library selects a registered handler by
//! method and path, extracts the typed values the handler declares from the
//! request context, invokes the handler, and converts its result into an
//! outgoing response. Route matching, path-parameter capture, query-parameter
//! parsing, the extraction protocol and the per-request pipeline are all
//! verified; the transport that carries bytes lives outside this crate.

pub mod app;
pub mod context;
pub mod extract;
pub mod factory;
pub mod handlers;
pub mod method;
pub mod params;
pub mod pattern;
pub mod response;
pub mod router;
pub mod server;
pub mod service;
pub mod strutil;

pub use crate::app::App;
pub use crate::context::Context;
pub use crate::extract::{Header, URLParams, URL};
pub use crate::method::{HttpVersion, Method};
pub use crate::params::PathParams;
pub use crate::response::HttpResponse;
pub use crate::server::Server;
