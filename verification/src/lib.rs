//! Verified core of a sink that captures audio and casts it to a Chromecast.

pub mod calls;
pub mod chromecast;
pub mod cover;
pub mod cover_laws;
pub mod device;
pub mod device_answers;
pub mod device_laws;
pub mod discovery;
pub mod discovery_laws;
pub mod encoding;
pub mod handler;
pub mod handler_laws;
pub mod markup;
pub mod options;
pub mod sink;
pub mod sink_laws;
pub mod text;
pub mod text_laws;
