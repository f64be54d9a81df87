//! The contract between an application and a text-to-speech synthesiser:
//! the audio format model, the negotiation of a format that both accept,
//! the events of an utterance stream, and the order that a stream keeps.

pub mod audio;
pub mod binary32;
pub mod config;
pub mod event;
pub mod negotiate;
pub mod stream;

pub use crate::audio::{
    AudioChannels, AudioCodec, AudioContainer, AudioEncoding, AudioFormat, AudioFormatPreference,
    AudioFormatPreferenceView, AudioFormatView,
};
pub use crate::binary32::Binary32;
pub use crate::config::{UtteranceConfig, UtteranceConfigView};
pub use crate::event::{
    BasicViseme, BasicVisemeFrame, BlendShape, BlendShapeVisemeFrame, EventKind, UtteranceEvent,
};
pub use crate::negotiate::{negotiate, AudioCapabilities, AudioCapabilitiesView};
pub use crate::stream::{StreamTracker, StreamView, Verdict};
