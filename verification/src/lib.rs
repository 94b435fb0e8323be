//! Core of an in-browser HTTP request tool: the envelope exchanged between the
//! user-facing context and the privileged background context, request validation,
//! response-body decoding and the pinned request log.

pub mod body;
pub mod charset;
pub mod codec;
pub mod display;
pub mod error;
pub mod executor;
pub mod form;
pub mod header;
pub mod json;
pub mod log;
pub mod message;
pub mod method;
pub mod relay;
pub mod request;
pub mod response;
pub mod store;
pub mod text;
