pub mod bytes;
pub mod container;
pub mod fourcc;
pub mod mime;
pub mod text;
pub mod readers;
pub mod api;
pub mod thumbnail;
