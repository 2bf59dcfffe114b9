//! Parallax core: the verified logic of a local-first API client.
#![allow(unused_imports)]

pub mod text;
pub mod form;
pub mod protobuf;
pub mod grpc;
pub mod template;
pub mod cookie;
pub mod crypto;
pub mod http_engine;
pub mod providers;
pub mod sse;
pub mod github;
pub mod workspace;
pub mod events;
pub mod git;
pub mod schema;
