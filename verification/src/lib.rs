//! The request layer of an AWS client: how a signed request becomes an HTTP
//! request, and how what comes back becomes a response or an error.

pub mod buffer;
pub mod client;
pub mod config;
pub mod dispatch;
pub mod error;
pub mod headers;
pub mod payload;
pub mod response;
pub mod signed;
pub mod text;
pub mod translation;
