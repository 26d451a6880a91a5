//! The coordination kernel of a WebRTC relay: who may connect, which room a
//! connection belongs to, what each session holds in the media worker, and
//! what every signalling operation is allowed to do.
//!
//! The relay server is a plain value. It decides; the program around it
//! talks to the network and to the media worker, and reports back what the
//! worker did.

pub mod bijection;
pub mod bus;
pub mod cmdline;
pub mod codecs;
pub mod control_schema;
pub mod holdings;
pub mod keyed;
pub mod laws;
pub mod minting;
pub mod protocol;
pub mod registry;
pub mod relay_server;
pub mod room;
pub mod session;
pub mod signal_schema;
pub mod state;
