//! What an application asks of one utterance.

use vstd::prelude::*;

verus! {

/// What an [`UtteranceConfig`] is, as a value.
pub struct UtteranceConfigView {
    pub emit_word_boundary_events: bool,
    pub emit_sentence_boundary_events: bool,
    pub emit_visemes: bool,
    pub voice: Option<Seq<char>>,
    pub language: Option<Seq<char>>,
}

/// What an application asks of one utterance: which events the stream is to
/// hold beside the audio, and the voice and language to speak plain text in.
/// A document names its own voice and language, so for a document the last
/// two are not looked at.
#[derive(Debug)]
#[non_exhaustive]
pub struct UtteranceConfig {
    /// Whether the stream is to hold word boundaries.
    pub emit_word_boundary_events: bool,
    /// Whether the stream is to hold sentence boundaries.
    pub emit_sentence_boundary_events: bool,
    /// Whether the stream is to hold visemes, by code or as blend shapes.
    pub emit_visemes: bool,
    /// The name of the voice.
    pub voice: Option<String>,
    /// The language of the text.
    pub language: Option<String>,
}

/// The characters of an optional string.
pub open spec fn chars(text: Option<String>) -> Option<Seq<char>> {
    match text {
        Some(s) => Some(s@),
        None => None,
    }
}

impl View for UtteranceConfig {
    type V = UtteranceConfigView;

    open spec fn view(&self) -> UtteranceConfigView {
        UtteranceConfigView {
            emit_word_boundary_events: self.emit_word_boundary_events,
            emit_sentence_boundary_events: self.emit_sentence_boundary_events,
            emit_visemes: self.emit_visemes,
            voice: chars(self.voice),
            language: chars(self.language),
        }
    }
}

impl Default for UtteranceConfig {
    /// Audio alone, in the synthesiser's own voice and language.
    fn default() -> (r: Self)
        ensures
            r@ == (UtteranceConfigView {
                emit_word_boundary_events: false,
                emit_sentence_boundary_events: false,
                emit_visemes: false,
                voice: None,
                language: None,
            }),
    {
        UtteranceConfig {
            emit_word_boundary_events: false,
            emit_sentence_boundary_events: false,
            emit_visemes: false,
            voice: None,
            language: None,
        }
    }
}

impl Clone for UtteranceConfig {
    fn clone(&self) -> (r: Self)
        ensures
            r@ == self@,
    {
        UtteranceConfig {
            emit_word_boundary_events: self.emit_word_boundary_events,
            emit_sentence_boundary_events: self.emit_sentence_boundary_events,
            emit_visemes: self.emit_visemes,
            voice: self.voice.clone(),
            language: self.language.clone(),
        }
    }
}

impl UtteranceConfig {
    /// Sets whether the stream is to hold word boundaries.
    pub fn with_emit_word_boundary_events(self, x: bool) -> (r: Self)
        ensures
            r@ == (UtteranceConfigView { emit_word_boundary_events: x, ..self@ }),
    {
        let mut r = self;
        r.emit_word_boundary_events = x;
        r
    }

    /// Sets whether the stream is to hold sentence boundaries.
    pub fn with_emit_sentence_boundary_events(self, x: bool) -> (r: Self)
        ensures
            r@ == (UtteranceConfigView { emit_sentence_boundary_events: x, ..self@ }),
    {
        let mut r = self;
        r.emit_sentence_boundary_events = x;
        r
    }

    /// Sets whether the stream is to hold visemes.
    pub fn with_emit_visemes(self, x: bool) -> (r: Self)
        ensures
            r@ == (UtteranceConfigView { emit_visemes: x, ..self@ }),
    {
        let mut r = self;
        r.emit_visemes = x;
        r
    }

    /// Sets the voice to speak plain text in.
    pub fn with_voice(self, x: &str) -> (r: Self)
        ensures
            r@ == (UtteranceConfigView { voice: Some(x@), ..self@ }),
    {
        let mut r = self;
        r.voice = Some(x.to_owned());
        r
    }

    /// Sets the language of plain text.
    pub fn with_language(self, x: &str) -> (r: Self)
        ensures
            r@ == (UtteranceConfigView { language: Some(x@), ..self@ }),
    {
        let mut r = self;
        r.language = Some(x.to_owned());
        r
    }
}

} // verus!
