//! Transport layer of a moleculer service broker (HTTP and NATS), the decisions of
//! its channel listeners, and the rules of a text-to-speech service built on it,
//! with their contracts proved by Verus.
use vstd::prelude::*;

pub mod text;
pub mod address;
pub mod message;
pub mod transport;
pub mod logging;
pub mod client;
pub mod nats;
pub mod channels;
pub mod tts;
pub mod downloader;
pub mod http_transporter;

verus! {

} // verus!
