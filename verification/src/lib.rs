//! A minimal HTTP/1.1 GET server core: bounded request reading, request-line
//! parsing, route dispatch, and response building, with machine-checked
//! contracts. The surrounding process (sockets, file reads, task spawning)
//! lives outside this crate and hands plain byte buffers in and out.

pub mod laws;
pub mod request;
pub mod response;
pub mod server;

pub use response::{ok, html, index};
