//! A small verified HTTP static-file server core: request-line parsing,
//! path sanitization, content-type classification, target resolution and
//! response framing. The surrounding process (sockets, threads, the
//! configuration file on disk) lives outside this crate.

pub mod config;
pub mod content_type;
pub mod request;
pub mod response;
pub mod sanitize;
pub mod text;
