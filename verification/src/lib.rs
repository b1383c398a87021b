//! A multi-tenant reverse proxy core for serving upstream-hosted content
//! under custom domains: tenant resolution with a bounded expiring cache,
//! request classification, synthetic responses, and HTML/JS rewriting.

pub mod cli;
pub mod config;
pub mod error;
pub mod handler;
pub mod json;
pub mod resolver;
pub mod responses;
pub mod rewriter;
pub mod router;
pub mod text;
