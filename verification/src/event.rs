//! The events of an utterance stream.
//!
//! All offsets count milliseconds from the start of the synthesised audio.

use crate::binary32::Binary32;
use vstd::prelude::*;

verus! {

/// One blend shape of a [`BlendShapeVisemeFrame`]: a shape key, named as the
/// synthesiser names it, and how far the shape is applied.
#[derive(Debug)]
pub struct BlendShape {
    pub key: String,
    /// From zero, no influence, to one, full influence. A weight outside
    /// that range is passed on as it came.
    pub weight: Binary32,
}

impl Clone for BlendShape {
    fn clone(&self) -> (r: Self)
        ensures
            r == *self,
    {
        BlendShape { key: self.key.clone(), weight: self.weight }
    }
}

/// The blend shapes that hold at one point in time.
#[derive(Debug)]
pub struct BlendShapeVisemeFrame {
    pub blendshapes: Vec<BlendShape>,
    pub frame_offset: Binary32,
}

impl Clone for BlendShapeVisemeFrame {
    fn clone(&self) -> (r: Self)
        ensures
            r.blendshapes@ == self.blendshapes@,
            r.frame_offset == self.frame_offset,
    {
        BlendShapeVisemeFrame {
            blendshapes: self.blendshapes.clone(),
            frame_offset: self.frame_offset,
        }
    }
}

/// A viseme by its code. What a code stands for is up to the synthesiser.
#[derive(Debug, Clone, Copy, PartialEq, Eq, Structural)]
pub struct BasicViseme(pub char);

/// A viseme at one point in time.
#[derive(Debug, Clone, Copy)]
pub struct BasicVisemeFrame {
    pub viseme: BasicViseme,
    pub frame_offset: Binary32,
}

/// An event of an utterance stream.
#[derive(Debug)]
#[non_exhaustive]
pub enum UtteranceEvent {
    /// A mark of the document was reached.
    SsmlMark { at_millis: Binary32, mark: String },
    /// A word was spoken between the two offsets.
    WordBoundary { from_millis: Binary32, to_millis: Binary32, text: String },
    /// A sentence was spoken between the two offsets.
    SentenceBoundary { from_millis: Binary32, to_millis: Binary32, text: String },
    /// Some frames of visemes as blend shapes.
    BlendShapeVisemesChunk(Vec<BlendShapeVisemeFrame>),
    /// Some frames of visemes by code.
    VisemesChunk(Vec<BasicVisemeFrame>),
    /// Some bytes of audio in the negotiated format.
    AudioChunk(Vec<u8>),
}

/// The kinds of event.
#[derive(Debug, Clone, Copy, PartialEq, Eq, Structural)]
pub enum EventKind {
    SsmlMark,
    WordBoundary,
    SentenceBoundary,
    BlendShapeVisemes,
    Visemes,
    Audio,
}

impl UtteranceEvent {
    /// The kind of this event.
    pub open spec fn spec_kind(&self) -> EventKind {
        match self {
            UtteranceEvent::SsmlMark { .. } => EventKind::SsmlMark,
            UtteranceEvent::WordBoundary { .. } => EventKind::WordBoundary,
            UtteranceEvent::SentenceBoundary { .. } => EventKind::SentenceBoundary,
            UtteranceEvent::BlendShapeVisemesChunk(_) => EventKind::BlendShapeVisemes,
            UtteranceEvent::VisemesChunk(_) => EventKind::Visemes,
            UtteranceEvent::AudioChunk(_) => EventKind::Audio,
        }
    }

    /// The offsets at which this event places something, in the order in
    /// which it holds them: where a mark was reached, where a word or a
    /// sentence began, the offset of each frame. Audio has none.
    pub open spec fn offsets(&self) -> Seq<Binary32> {
        match self {
            UtteranceEvent::SsmlMark { at_millis, .. } => seq![*at_millis],
            UtteranceEvent::WordBoundary { from_millis, .. } => seq![*from_millis],
            UtteranceEvent::SentenceBoundary { from_millis, .. } => seq![*from_millis],
            UtteranceEvent::BlendShapeVisemesChunk(frames) => frames@.map_values(
                |f: BlendShapeVisemeFrame| f.frame_offset,
            ),
            UtteranceEvent::VisemesChunk(frames) => frames@.map_values(
                |f: BasicVisemeFrame| f.frame_offset,
            ),
            UtteranceEvent::AudioChunk(_) => Seq::empty(),
        }
    }

    /// The kind of this event.
    #[verifier::when_used_as_spec(spec_kind)]
    pub fn kind(&self) -> (r: EventKind)
        ensures
            r == self.spec_kind(),
    {
        match self {
            UtteranceEvent::SsmlMark { .. } => EventKind::SsmlMark,
            UtteranceEvent::WordBoundary { .. } => EventKind::WordBoundary,
            UtteranceEvent::SentenceBoundary { .. } => EventKind::SentenceBoundary,
            UtteranceEvent::BlendShapeVisemesChunk(_) => EventKind::BlendShapeVisemes,
            UtteranceEvent::VisemesChunk(_) => EventKind::Visemes,
            UtteranceEvent::AudioChunk(_) => EventKind::Audio,
        }
    }
}

} // verus!
