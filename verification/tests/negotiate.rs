use speech_synthesis::{
    negotiate, AudioCapabilities, AudioChannels, AudioCodec, AudioContainer, AudioEncoding,
    AudioFormatPreference,
};

/// A synthesiser that produces 44100 Hz stereo MP3 at 128 or 192 kbps.
fn mp3_only() -> AudioCapabilities {
    AudioCapabilities::new(
        vec![44100],
        vec![AudioChannels::Stereo],
        vec![128, 192],
        vec![AudioContainer::Mp3],
    )
    .unwrap()
}

/// A synthesiser with several values in every dimension.
fn versatile() -> AudioCapabilities {
    AudioCapabilities::new(
        vec![24000, 16000, 48000],
        vec![AudioChannels::Mono, AudioChannels::Stereo],
        vec![96, 48, 160, 32],
        vec![
            AudioContainer::Riff(AudioEncoding::PcmI16),
            AudioContainer::Mp3,
            AudioContainer::Ogg(AudioCodec::Opus),
            AudioContainer::Raw(AudioEncoding::MuLaw),
            AudioContainer::Webm(AudioCodec::Opus),
        ],
    )
    .unwrap()
}

#[test]
fn capabilities_need_a_value_in_every_hard_dimension() {
    let stereo = vec![AudioChannels::Stereo];
    let mp3 = vec![AudioContainer::Mp3];
    assert!(AudioCapabilities::new(vec![], stereo.clone(), vec![128], mp3.clone()).is_none());
    assert!(AudioCapabilities::new(vec![44100], vec![], vec![128], mp3.clone()).is_none());
    assert!(AudioCapabilities::new(vec![44100], stereo.clone(), vec![128], vec![]).is_none());
    assert!(AudioCapabilities::new(vec![], vec![], vec![], vec![]).is_none());
    assert!(AudioCapabilities::new(vec![44100], stereo, vec![], mp3).is_some());
}

#[test]
fn no_preference_gives_the_synthesisers_defaults() {
    let format = negotiate(&AudioFormatPreference::default(), &mp3_only()).unwrap();
    assert_eq!(format.sample_rate(), 44100);
    assert_eq!(format.channels(), AudioChannels::Stereo);
    assert_eq!(format.bitrate(), Some(128));
    assert_eq!(format.container(), AudioContainer::Mp3);
    assert_eq!(format.name(), None);

    let format = negotiate(&AudioFormatPreference::default(), &versatile()).unwrap();
    assert_eq!(format.sample_rate(), 24000);
    assert_eq!(format.channels(), AudioChannels::Mono);
    assert_eq!(format.bitrate(), None);
    assert_eq!(format.container(), AudioContainer::Riff(AudioEncoding::PcmI16));
}

#[test]
fn empty_lists_ask_for_nothing() {
    let pref = AudioFormatPreference::default()
        .with_prefer_sample_rates(vec![])
        .with_prefer_channels(vec![])
        .with_prefer_bitrates(vec![])
        .with_prefer_containers(vec![]);
    let format = negotiate(&pref, &mp3_only()).unwrap();
    assert_eq!(format.sample_rate(), 44100);
    assert_eq!(format.channels(), AudioChannels::Stereo);
    assert_eq!(format.bitrate(), Some(128));
    assert_eq!(format.container(), AudioContainer::Mp3);
}

#[test]
fn unsupported_sample_rates_give_no_format() {
    let pref = AudioFormatPreference::default().with_prefer_sample_rates(vec![48000, 22050]);
    assert!(negotiate(&pref, &mp3_only()).is_none());
    let pref = AudioFormatPreference::default().with_prefer_sample_rates(vec![48000]);
    assert!(negotiate(&pref, &mp3_only()).is_none());
    let pref = AudioFormatPreference::default().with_prefer_sample_rates(vec![22050]);
    assert!(negotiate(&pref, &mp3_only()).is_none());
}

#[test]
fn unsupported_channels_give_no_format() {
    let pref = AudioFormatPreference::default().with_prefer_channels(vec![AudioChannels::Mono]);
    assert!(negotiate(&pref, &mp3_only()).is_none());
}

#[test]
fn unsupported_container_gives_no_format() {
    let pref = AudioFormatPreference::default()
        .with_prefer_containers(vec![AudioContainer::Ogg(AudioCodec::Opus)]);
    assert!(negotiate(&pref, &mp3_only()).is_none());
}

#[test]
fn one_unmet_dimension_is_enough_to_fail() {
    let pref = AudioFormatPreference::default()
        .with_prefer_sample_rates(vec![44100])
        .with_prefer_channels(vec![AudioChannels::Mono])
        .with_prefer_containers(vec![AudioContainer::Mp3]);
    assert!(negotiate(&pref, &mp3_only()).is_none());
    let pref = AudioFormatPreference::default()
        .with_prefer_sample_rates(vec![44100])
        .with_prefer_channels(vec![AudioChannels::Stereo])
        .with_prefer_containers(vec![AudioContainer::Webm(AudioCodec::Opus)]);
    assert!(negotiate(&pref, &mp3_only()).is_none());
    let pref = AudioFormatPreference::default()
        .with_prefer_sample_rates(vec![8000])
        .with_prefer_channels(vec![AudioChannels::Stereo])
        .with_prefer_containers(vec![AudioContainer::Mp3]);
    assert!(negotiate(&pref, &mp3_only()).is_none());
}

#[test]
fn bitrate_between_two_supported_takes_the_higher_when_equally_near() {
    let pref = AudioFormatPreference::default()
        .with_prefer_sample_rates(vec![44100])
        .with_prefer_channels(vec![AudioChannels::Stereo])
        .with_prefer_bitrates(vec![160])
        .with_prefer_containers(vec![AudioContainer::Mp3]);
    let format = negotiate(&pref, &mp3_only()).unwrap();
    assert_eq!(format.sample_rate(), 44100);
    assert_eq!(format.channels(), AudioChannels::Stereo);
    assert_eq!(format.bitrate(), Some(192));
    assert_eq!(format.container(), AudioContainer::Mp3);
}

#[test]
fn bitrate_nearer_to_a_lower_supported_takes_the_lower() {
    let pref = AudioFormatPreference::default().with_prefer_bitrates(vec![140]);
    assert_eq!(negotiate(&pref, &mp3_only()).unwrap().bitrate(), Some(128));
    let pref = AudioFormatPreference::default().with_prefer_bitrates(vec![159]);
    assert_eq!(negotiate(&pref, &mp3_only()).unwrap().bitrate(), Some(128));
}

#[test]
fn bitrate_nearer_to_a_higher_supported_takes_the_higher() {
    let pref = AudioFormatPreference::default().with_prefer_bitrates(vec![161]);
    assert_eq!(negotiate(&pref, &mp3_only()).unwrap().bitrate(), Some(192));
    let pref = AudioFormatPreference::default().with_prefer_bitrates(vec![180]);
    assert_eq!(negotiate(&pref, &mp3_only()).unwrap().bitrate(), Some(192));
}

#[test]
fn bitrate_outside_the_supported_range_takes_the_nearest_end() {
    let pref = AudioFormatPreference::default().with_prefer_bitrates(vec![0]);
    assert_eq!(negotiate(&pref, &mp3_only()).unwrap().bitrate(), Some(128));
    let pref = AudioFormatPreference::default().with_prefer_bitrates(vec![64]);
    assert_eq!(negotiate(&pref, &mp3_only()).unwrap().bitrate(), Some(128));
    let pref = AudioFormatPreference::default().with_prefer_bitrates(vec![320]);
    assert_eq!(negotiate(&pref, &mp3_only()).unwrap().bitrate(), Some(192));
    let pref = AudioFormatPreference::default().with_prefer_bitrates(vec![u16::MAX]);
    assert_eq!(negotiate(&pref, &mp3_only()).unwrap().bitrate(), Some(192));
}

#[test]
fn supported_bitrate_is_taken_as_asked() {
    let pref = AudioFormatPreference::default().with_prefer_bitrates(vec![128]);
    assert_eq!(negotiate(&pref, &mp3_only()).unwrap().bitrate(), Some(128));
    let pref = AudioFormatPreference::default().with_prefer_bitrates(vec![192]);
    assert_eq!(negotiate(&pref, &mp3_only()).unwrap().bitrate(), Some(192));
}

#[test]
fn only_the_first_bitrate_asked_for_counts() {
    let pref = AudioFormatPreference::default().with_prefer_bitrates(vec![160, 128]);
    assert_eq!(negotiate(&pref, &mp3_only()).unwrap().bitrate(), Some(192));
    let pref = AudioFormatPreference::default().with_prefer_bitrates(vec![200, 128, 128]);
    assert_eq!(negotiate(&pref, &mp3_only()).unwrap().bitrate(), Some(192));
}

#[test]
fn closest_bitrate_does_not_depend_on_the_order_listed() {
    let pref = AudioFormatPreference::default()
        .with_prefer_bitrates(vec![64])
        .with_prefer_containers(vec![AudioContainer::Mp3]);
    // 48 and 96 are 16 and 32 away from 64.
    assert_eq!(negotiate(&pref, &versatile()).unwrap().bitrate(), Some(48));
    let pref = AudioFormatPreference::default()
        .with_prefer_bitrates(vec![40])
        .with_prefer_containers(vec![AudioContainer::Mp3]);
    // 32 and 48 are both 8 away from 40.
    assert_eq!(negotiate(&pref, &versatile()).unwrap().bitrate(), Some(48));
    let pref = AudioFormatPreference::default()
        .with_prefer_bitrates(vec![128])
        .with_prefer_containers(vec![AudioContainer::Mp3]);
    // 96 and 160 are both 32 away from 128.
    assert_eq!(negotiate(&pref, &versatile()).unwrap().bitrate(), Some(160));
    let reversed = AudioCapabilities::new(
        vec![44100],
        vec![AudioChannels::Stereo],
        vec![192, 128],
        vec![AudioContainer::Mp3],
    )
    .unwrap();
    let pref = AudioFormatPreference::default().with_prefer_bitrates(vec![160]);
    assert_eq!(negotiate(&pref, &reversed).unwrap().bitrate(), Some(192));
    let pref = AudioFormatPreference::default().with_prefer_bitrates(vec![150]);
    assert_eq!(negotiate(&pref, &reversed).unwrap().bitrate(), Some(128));
}

#[test]
fn containers_without_bitrate_leave_it_absent() {
    let pref = AudioFormatPreference::default()
        .with_prefer_bitrates(vec![96])
        .with_prefer_containers(vec![AudioContainer::Raw(AudioEncoding::MuLaw)]);
    let format = negotiate(&pref, &versatile()).unwrap();
    assert_eq!(format.container(), AudioContainer::Raw(AudioEncoding::MuLaw));
    assert_eq!(format.bitrate(), None);
    let pref = AudioFormatPreference::default()
        .with_prefer_bitrates(vec![96])
        .with_prefer_containers(vec![AudioContainer::Riff(AudioEncoding::PcmI16)]);
    let format = negotiate(&pref, &versatile()).unwrap();
    assert_eq!(format.container(), AudioContainer::Riff(AudioEncoding::PcmI16));
    assert_eq!(format.bitrate(), None);
}

#[test]
fn synthesiser_without_bitrates_still_gives_a_format() {
    let caps = AudioCapabilities::new(
        vec![44100],
        vec![AudioChannels::Stereo],
        vec![],
        vec![AudioContainer::Mp3],
    )
    .unwrap();
    let pref = AudioFormatPreference::default().with_prefer_bitrates(vec![160]);
    let format = negotiate(&pref, &caps).unwrap();
    assert_eq!(format.container(), AudioContainer::Mp3);
    assert_eq!(format.bitrate(), None);
    let format = negotiate(&AudioFormatPreference::default(), &caps).unwrap();
    assert_eq!(format.bitrate(), None);
}

#[test]
fn the_applications_ranking_decides_not_the_synthesisers() {
    let pref = AudioFormatPreference::default()
        .with_prefer_sample_rates(vec![48000, 16000, 24000])
        .with_prefer_channels(vec![AudioChannels::Stereo, AudioChannels::Mono])
        .with_prefer_containers(vec![
            AudioContainer::Webm(AudioCodec::Opus),
            AudioContainer::Mp3,
        ]);
    let format = negotiate(&pref, &versatile()).unwrap();
    assert_eq!(format.sample_rate(), 48000);
    assert_eq!(format.channels(), AudioChannels::Stereo);
    assert_eq!(format.container(), AudioContainer::Webm(AudioCodec::Opus));
    assert_eq!(format.bitrate(), Some(96));
}

#[test]
fn unsupported_values_are_passed_over() {
    let pref = AudioFormatPreference::default()
        .with_prefer_sample_rates(vec![96000, 44100, 16000, 48000])
        .with_prefer_containers(vec![
            AudioContainer::Ogg(AudioCodec::Vorbis),
            AudioContainer::Raw(AudioEncoding::PcmI16),
            AudioContainer::Ogg(AudioCodec::Opus),
            AudioContainer::Mp3,
        ]);
    let format = negotiate(&pref, &versatile()).unwrap();
    assert_eq!(format.sample_rate(), 16000);
    assert_eq!(format.channels(), AudioChannels::Mono);
    assert_eq!(format.container(), AudioContainer::Ogg(AudioCodec::Opus));
}

#[test]
fn container_is_supported_only_with_what_it_frames() {
    let pref = AudioFormatPreference::default()
        .with_prefer_containers(vec![AudioContainer::Ogg(AudioCodec::Vorbis)]);
    assert!(negotiate(&pref, &versatile()).is_none());
    let pref = AudioFormatPreference::default()
        .with_prefer_containers(vec![AudioContainer::Riff(AudioEncoding::MuLaw)]);
    assert!(negotiate(&pref, &versatile()).is_none());
    let pref = AudioFormatPreference::default()
        .with_prefer_containers(vec![AudioContainer::Raw(AudioEncoding::PcmI16)]);
    assert!(negotiate(&pref, &versatile()).is_none());
    let pref = AudioFormatPreference::default()
        .with_prefer_containers(vec![AudioContainer::Webm(AudioCodec::Vorbis)]);
    assert!(negotiate(&pref, &versatile()).is_none());
}

#[test]
fn value_asked_for_twice_counts_where_it_comes_first() {
    let pref = AudioFormatPreference::default()
        .with_prefer_sample_rates(vec![16000, 48000, 16000])
        .with_prefer_sample_rates(vec![48000]);
    assert_eq!(negotiate(&pref, &versatile()).unwrap().sample_rate(), 16000);
}

#[test]
fn negotiating_twice_gives_the_same_format() {
    let pref = AudioFormatPreference::default()
        .with_prefer_sample_rates(vec![48000, 16000])
        .with_prefer_bitrates(vec![100])
        .with_prefer_containers(vec![AudioContainer::Mp3]);
    let caps = versatile();
    let first = negotiate(&pref, &caps).unwrap();
    let second = negotiate(&pref, &caps).unwrap();
    assert_eq!(first.sample_rate(), second.sample_rate());
    assert_eq!(first.channels(), second.channels());
    assert_eq!(first.bitrate(), second.bitrate());
    assert_eq!(first.container(), second.container());
    assert_eq!(first.name(), second.name());
    assert_eq!(first.sample_rate(), 48000);
    assert_eq!(first.bitrate(), Some(96));

    let third = negotiate(&pref.clone(), &caps.clone()).unwrap();
    assert_eq!(first.sample_rate(), third.sample_rate());
    assert_eq!(first.channels(), third.channels());
    assert_eq!(first.bitrate(), third.bitrate());
    assert_eq!(first.container(), third.container());

    let unmet = AudioFormatPreference::default().with_prefer_sample_rates(vec![1]);
    assert!(negotiate(&unmet, &caps).is_none());
    assert!(negotiate(&unmet, &caps).is_none());
}
