//! A verified core for a minimal HTTP/1.1 message layer: parsing of
//! request text into a structured request value, and construction and
//! serialization of response values with Content-Length framing.

pub mod headers;
pub mod http_request;
pub mod http_response;
pub mod text;
