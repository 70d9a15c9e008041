//! Core of a small HTTP/1.x static-file server: request framing, request-line
//! parsing, safe resolution of request targets inside a document root,
//! response assembly, and the per-connection session state machine that a
//! readiness-driven event loop drives.

pub mod config;
pub mod framer;
pub mod handler;
pub mod http;
pub mod resolver;
pub mod session;
pub mod text;
