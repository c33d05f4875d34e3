//! Typed messaging endpoint layer: logical endpoint declarations are resolved
//! into registries of publisher, subscriber, requester and provider handles,
//! each carrying its quality-of-service settings and bounded delivery channel,
//! with message codecs that turn typed records into bytes and back.

pub mod channels;
pub mod config;
pub mod encodings;
pub mod endpoints;
pub mod index;
pub mod interfaces;
pub mod message;
pub mod models;
pub mod peripherals;
pub mod storage;
pub mod topics;
