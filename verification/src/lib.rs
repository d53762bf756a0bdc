//! Serving the streams of a camera over RTSP.
//!
//! The library decides what is served, to whom and how: the pipeline for the encodings of a stream
//! ([`format`]), the outputs that the data of a stream is written to ([`outputs`], [`source`]), who
//! may watch it ([`access`]) and how viewers sign in ([`server`]).  The program around it carries
//! the decisions out on the media framework.

pub mod access;
pub mod channel;
pub mod format;
pub mod outputs;
pub mod server;
pub mod source;
pub mod text;

pub use access::Role;
pub use format::StreamFormat;
pub use outputs::{GstOutputs, MediaFactory};
pub use server::{Auth, ClientAuth, Credential, Feed, NewStream, RtspServer, Tls};
pub use source::{MaybeAppSrc, Push, WriteStep};
