//! A configurable read-only query service: routes are declared in a
//! configuration, and each request's query string is turned into a
//! document-store filter and a paging window.

pub mod args;
pub mod conf;
pub mod filter;
pub mod middleware;
pub mod query;
pub mod request;
pub mod respond;
pub mod route;
pub mod text;
