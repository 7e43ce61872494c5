//! A URL shortener's request pipeline: decoding requests, routing them,
//! generating and validating short codes, the storage contract and the
//! response encoding.

pub mod text;
pub mod number;
pub mod pattern;
pub mod random;
pub mod fields;
pub mod request;
pub mod decoder;
pub mod response;
pub mod database;
pub mod memory;
pub mod handler;
pub mod router;
pub mod laws;
