//! Verified core of a Media Foundation virtual camera: frame formats, the
//! static test pattern, the shared-memory feed protocol, the stream and
//! source state machines, and the command-line option parsers.

pub mod constants;
pub mod error;
pub mod decimal;
pub mod video_format;
pub mod feed;
pub mod feed_session;
pub mod broker;
pub mod feed_laws;
pub mod laws;
pub mod bmp;
pub mod surface;
pub mod test_pattern;
pub mod media;
pub mod paths;
pub mod cli;
pub mod demo;
pub mod frame_laws;
