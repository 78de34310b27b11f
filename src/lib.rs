//! Vector tile serving: the tileset registry, the router over request paths,
//! and the handlers that turn a request into a response or a tile query.
pub mod laws;
pub mod route;
pub mod serve;
pub mod text;
pub mod tileset;
