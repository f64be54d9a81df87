//! Value types that describe audio: channel layout, sample encoding, codec,
//! container, and the fully resolved [`AudioFormat`].

use vstd::prelude::*;

verus! {

/// Codec of a compressed container.
#[derive(Debug, Clone, Copy, PartialEq, Eq, Structural)]
#[non_exhaustive]
pub enum AudioCodec {
    Opus,
    Vorbis,
}

/// Encoding of raw samples.
#[derive(Debug, Clone, Copy, PartialEq, Eq, Structural)]
#[non_exhaustive]
pub enum AudioEncoding {
    /// Signed 16-bit PCM.
    PcmI16,
    /// 32-bit floating point PCM.
    PcmF32,
    /// 8-bit A-law.
    ALaw,
    /// 8-bit mu-law.
    MuLaw,
}

/// Channel layout.
#[derive(Debug, Clone, Copy, PartialEq, Eq, Structural)]
#[non_exhaustive]
pub enum AudioChannels {
    /// One channel.
    Mono,
    /// Two channels.
    Stereo,
}

/// Container of the audio, together with what it frames. Two containers are
/// equal only if what they frame is equal too.
#[derive(Debug, Clone, Copy, PartialEq, Eq, Structural)]
#[non_exhaustive]
pub enum AudioContainer {
    /// No framing: bare samples in the given encoding.
    Raw(AudioEncoding),
    /// RIFF (WAV) framing around samples in the given encoding.
    Riff(AudioEncoding),
    /// MP3.
    Mp3,
    /// OGG framing around the given codec.
    Ogg(AudioCodec),
    /// WEBM framing around the given codec.
    Webm(AudioCodec),
}

impl AudioContainer {
    /// Whether audio in this container has a bitrate to choose. Bare and
    /// RIFF-framed samples have none: their data rate follows from the sample
    /// rate, the encoding and the channels.
    pub open spec fn carries_bitrate(self) -> bool {
        self is Mp3 || self is Ogg || self is Webm
    }

    /// Whether audio in this container has a bitrate to choose.
    pub fn has_bitrate(self) -> (r: bool)
        ensures
            r == self.carries_bitrate(),
    {
        match self {
            AudioContainer::Raw(_) => false,
            AudioContainer::Riff(_) => false,
            AudioContainer::Mp3 => true,
            AudioContainer::Ogg(_) => true,
            AudioContainer::Webm(_) => true,
        }
    }
}

/// What an [`AudioFormat`] is, as a value.
pub struct AudioFormatView {
    pub sample_rate: u32,
    pub channels: AudioChannels,
    pub bitrate: Option<u16>,
    pub container: AudioContainer,
    pub name: Option<Seq<char>>,
}

/// A fully resolved audio format: one sample rate, one channel layout, one
/// container, a bitrate where the container has one to choose, and
/// optionally a name for people to read.
#[derive(Debug)]
pub struct AudioFormat {
    sample_rate: u32,
    channels: AudioChannels,
    bitrate: Option<u16>,
    container: AudioContainer,
    name: Option<String>,
}

impl View for AudioFormat {
    type V = AudioFormatView;

    closed spec fn view(&self) -> AudioFormatView {
        AudioFormatView {
            sample_rate: self.sample_rate,
            channels: self.channels,
            bitrate: self.bitrate,
            container: self.container,
            name: match self.name {
                Some(n) => Some(n@),
                None => None,
            },
        }
    }
}

impl Clone for AudioFormat {
    fn clone(&self) -> (r: Self)
        ensures
            r@ == self@,
    {
        AudioFormat {
            sample_rate: self.sample_rate,
            channels: self.channels,
            bitrate: self.bitrate,
            container: self.container,
            name: self.name.clone(),
        }
    }
}

impl AudioFormat {
    /// A format without a name.
    pub fn new(
        sample_rate: u32,
        channels: AudioChannels,
        bitrate: Option<u16>,
        container: AudioContainer,
    ) -> (r: Self)
        ensures
            r@ == (AudioFormatView { sample_rate, channels, bitrate, container, name: None }),
    {
        AudioFormat { sample_rate, channels, bitrate, container, name: None }
    }

    /// A format with a name.
    pub fn new_named(
        name: &str,
        sample_rate: u32,
        channels: AudioChannels,
        bitrate: Option<u16>,
        container: AudioContainer,
    ) -> (r: Self)
        ensures
            r@ == (AudioFormatView {
                sample_rate,
                channels,
                bitrate,
                container,
                name: Some(name@),
            }),
    {
        AudioFormat { sample_rate, channels, bitrate, container, name: Some(name.to_owned()) }
    }

    /// The name, if the format has one.
    pub fn name(&self) -> (r: Option<&str>)
        ensures
            r is Some == self@.name is Some,
            r matches Some(s) ==> self@.name == Some(s@),
    {
        match &self.name {
            Some(n) => Some(n.as_str()),
            None => None,
        }
    }

    /// Samples per second.
    pub fn sample_rate(&self) -> (r: u32)
        ensures
            r == self@.sample_rate,
    {
        self.sample_rate
    }

    /// The channel layout.
    pub fn channels(&self) -> (r: AudioChannels)
        ensures
            r == self@.channels,
    {
        self.channels
    }

    /// Kilobits per second, absent where the container has no bitrate to
    /// choose.
    pub fn bitrate(&self) -> (r: Option<u16>)
        ensures
            r == self@.bitrate,
    {
        self.bitrate
    }

    /// The container.
    pub fn container(&self) -> (r: AudioContainer)
        ensures
            r == self@.container,
    {
        self.container
    }
}

/// A format gives back what it was made from: one made without a name from
/// a sample rate, a channel layout, a bitrate or none, and a container holds
/// these and no name, and one made with a name holds that name too. The
/// accessors hand out what the format holds.
pub proof fn format_holds_what_made_it(
    format: AudioFormat,
    name: Option<Seq<char>>,
    sample_rate: u32,
    channels: AudioChannels,
    bitrate: Option<u16>,
    container: AudioContainer,
)
    requires
        format@ == (AudioFormatView { sample_rate, channels, bitrate, container, name }),
    ensures
        format@.sample_rate == sample_rate,
        format@.channels == channels,
        format@.bitrate == bitrate,
        format@.container == container,
        format@.name == name,
{
}

/// What an [`AudioFormatPreference`] is, as a value: for each dimension,
/// the ranked list if there is one.
pub struct AudioFormatPreferenceView {
    pub sample_rates: Option<Seq<u32>>,
    pub channels: Option<Seq<AudioChannels>>,
    pub bitrates: Option<Seq<u16>>,
    pub containers: Option<Seq<AudioContainer>>,
}

/// What an application would like to get, by dimension. Each list is ranked:
/// an earlier entry is preferred to a later one, and a value that occurs
/// twice counts where it occurs first. A dimension without a list accepts
/// whatever the synthesiser offers.
#[derive(Debug)]
#[non_exhaustive]
pub struct AudioFormatPreference {
    /// Samples per second.
    pub sample_rates: Option<Vec<u32>>,
    pub channels: Option<Vec<AudioChannels>>,
    /// Kilobits per second.
    pub bitrates: Option<Vec<u16>>,
    pub containers: Option<Vec<AudioContainer>>,
}

/// The ranked list held by an optional vector.
pub open spec fn ranked<T>(list: Option<Vec<T>>) -> Option<Seq<T>> {
    match list {
        Some(v) => Some(v@),
        None => None,
    }
}

/// The list that results from adding `more` to `list`: the earlier entries
/// keep their rank and the new ones follow in their own order.
pub open spec fn extended<T>(list: Option<Seq<T>>, more: Seq<T>) -> Seq<T> {
    match list {
        Some(earlier) => earlier + more,
        None => more,
    }
}

fn extend_ranked<T>(list: Option<Vec<T>>, more: Vec<T>) -> (r: Option<Vec<T>>)
    ensures
        ranked(r) == Some(extended(ranked(list), more@)),
{
    match list {
        Some(earlier) => {
            let mut all = earlier;
            let mut more = more;
            all.append(&mut more);
            Some(all)
        },
        None => Some(more),
    }
}

impl View for AudioFormatPreference {
    type V = AudioFormatPreferenceView;

    open spec fn view(&self) -> AudioFormatPreferenceView {
        AudioFormatPreferenceView {
            sample_rates: ranked(self.sample_rates),
            channels: ranked(self.channels),
            bitrates: ranked(self.bitrates),
            containers: ranked(self.containers),
        }
    }
}

impl Clone for AudioFormatPreference {
    fn clone(&self) -> (r: Self)
        ensures
            r@ == self@,
    {
        AudioFormatPreference {
            sample_rates: self.sample_rates.clone(),
            channels: self.channels.clone(),
            bitrates: self.bitrates.clone(),
            containers: self.containers.clone(),
        }
    }
}

impl Default for AudioFormatPreference {
    /// No preference in any dimension.
    fn default() -> (r: Self)
        ensures
            r@ == (AudioFormatPreferenceView {
                sample_rates: None,
                channels: None,
                bitrates: None,
                containers: None,
            }),
    {
        AudioFormatPreference { sample_rates: None, channels: None, bitrates: None, containers: None }
    }
}

impl AudioFormatPreference {
    /// Adds sample rates, ranked below those already there.
    pub fn with_prefer_sample_rates(self, pref: Vec<u32>) -> (r: Self)
        ensures
            r@ == (AudioFormatPreferenceView {
                sample_rates: Some(extended(self@.sample_rates, pref@)),
                ..self@
            }),
    {
        AudioFormatPreference {
            sample_rates: extend_ranked(self.sample_rates, pref),
            channels: self.channels,
            bitrates: self.bitrates,
            containers: self.containers,
        }
    }

    /// Adds channel layouts, ranked below those already there.
    pub fn with_prefer_channels(self, pref: Vec<AudioChannels>) -> (r: Self)
        ensures
            r@ == (AudioFormatPreferenceView {
                channels: Some(extended(self@.channels, pref@)),
                ..self@
            }),
    {
        AudioFormatPreference {
            sample_rates: self.sample_rates,
            channels: extend_ranked(self.channels, pref),
            bitrates: self.bitrates,
            containers: self.containers,
        }
    }

    /// Adds bitrates, ranked below those already there.
    pub fn with_prefer_bitrates(self, pref: Vec<u16>) -> (r: Self)
        ensures
            r@ == (AudioFormatPreferenceView {
                bitrates: Some(extended(self@.bitrates, pref@)),
                ..self@
            }),
    {
        AudioFormatPreference {
            sample_rates: self.sample_rates,
            channels: self.channels,
            bitrates: extend_ranked(self.bitrates, pref),
            containers: self.containers,
        }
    }

    /// Adds containers, ranked below those already there.
    pub fn with_prefer_containers(self, pref: Vec<AudioContainer>) -> (r: Self)
        ensures
            r@ == (AudioFormatPreferenceView {
                containers: Some(extended(self@.containers, pref@)),
                ..self@
            }),
    {
        AudioFormatPreference {
            sample_rates: self.sample_rates,
            channels: self.channels,
            bitrates: self.bitrates,
            containers: extend_ranked(self.containers, pref),
        }
    }
}

} // verus!
