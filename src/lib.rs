//! Client-side core of a query protocol: a JSON message envelope, its
//! length-prefixed framing, a read-exactly state machine that tolerates
//! short and interrupted reads, a descriptor-indexed handler registry, and
//! the translation between queries and messages.

pub mod error;
pub mod json;
pub mod model;
pub mod framing;
pub mod reader;
pub mod reactor;
pub mod util;
pub mod stream;
