//! A transparent, intercepting TCP proxy core: it reads one inbound HTTP
//! message, parses just enough of it to route (destination host and port, or
//! a CONNECT tunnel target), and decides how the connection is forwarded —
//! directly or through a configured upstream proxy, as a single round trip
//! or as an opaque bidirectional tunnel.

pub mod config;
pub mod errors;
pub mod headers;
pub mod num;
pub mod request;
pub mod scan;
pub mod server;
pub mod text;

pub use config::{CliOption, Config};
pub use errors::ProxyError;
pub use headers::Headers;
pub use request::get_request_headers;
pub use request::{Body, Request};
pub use server::{Server, Strategy};
pub use text::bytes_to_string;
