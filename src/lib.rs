//! A minimal HTTP/1.1 responder for static assets and world-clock pages.
//!
//! The library holds the protocol core: reading a request line, routing a
//! path, rendering a page, and serialising a byte-exact response. Sockets,
//! files and threads belong to the program around it.

pub mod clock;
pub mod request;
pub mod response;
pub mod router;
pub mod template;
pub mod text;
