//! The HTTP transporter under one name: address parsing, configuration,
//! envelopes, the transport and the client.
pub use crate::address::parse_http_address;
pub use crate::client::HttpClientTransport;
pub use crate::message::{HttpConfig, HttpMessage, HttpResponse};
pub use crate::transport::HttpTransport;
