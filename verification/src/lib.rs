//! An HTTP toolkit: status codes, methods, an HTTP/1.1 message lexer, header
//! collections, and socket address types.
use vstd::prelude::*;

pub mod body_info;
pub mod byte_iter;
pub mod bytes;
pub mod cookies;
pub mod core_method;
pub mod compress;
pub mod cors;
pub mod cors_config;
pub mod decimal;
pub mod encoding;
pub mod error;
pub mod gateway;
pub mod header_map;
pub mod header_traits;
pub mod headers;
pub mod inet;
pub mod inet6;
pub mod iptcp;
pub mod message;
pub mod parse;
pub mod method;
pub mod protocol;
pub mod read_ext;
pub mod request;
pub mod request_lex;
pub mod respond;
pub mod respond_bytes;
pub mod routing;
pub mod security;
pub mod sets;
pub mod socket;
pub mod uri;
pub mod wildcard;
pub mod status;
pub mod time_span;
pub mod trim;
