use music_player_rs::audio::output::{
    choose_output, classify_device, collapse_same_name, dedup_formats, describe_stream,
    device_info_from, DefaultConfig,
    device_pairs_from_infos, expand_supported_rates, is_raw_hardware_id, is_server_node,
    label_device_names, nearest_rate, target_buffer_frames, validate_audio_settings, BufferSize,
    ChosenOutput, DeviceCategory, DeviceInfo, FallbackReason, OutputRequest, Outcome, RateRange,
    SampleFormat, StreamConfig, SupportedBufferSize, ValidationRow,
};
use music_player_rs::settings::{
    ClockFamily, DsdMode, ExclusiveMode, FallbackPolicy, FallbackRatePolicy, ResamplerMode,
    Settings,
};

fn req_defaults(track_rate: u32, track_channels: usize, preferred: Option<&str>) -> OutputRequest {
    OutputRequest {
        track_rate,
        track_channels,
        preferred_device: preferred.map(String::from),
        exclusive: ExclusiveMode::Off,
        fallback: FallbackPolicy::Nearest,
        resampler: ResamplerMode::Auto,
        fallback_rate: FallbackRatePolicy::Nearest,
        clock_family: ClockFamily::Auto,
        fixed_rate: 0,
    }
}

fn req_off(track_rate: u32, track_channels: usize) -> OutputRequest {
    req_defaults(track_rate, track_channels, None)
}

fn mock_device(name: &str, channels: u16, sample_rate: u32, supported: &[(u16, u32, u32)]) -> DeviceInfo {
    mock_device_id(name, name, channels, sample_rate, supported)
}

fn mock_device_id(
    id: &str,
    name: &str,
    channels: u16,
    sample_rate: u32,
    supported: &[(u16, u32, u32)],
) -> DeviceInfo {
    let supported: Vec<RateRange> = supported
        .iter()
        .map(|&(c, lo, hi)| RateRange {
            channels: c,
            min: lo,
            max: hi,
            buffer_size: SupportedBufferSize::Range { min: 64, max: 4096 },
        })
        .collect();
    let category = classify_device(id, name);
    DeviceInfo {
        id: id.to_string(),
        name: name.to_string(),
        channels,
        sample_rate,
        sample_format: SampleFormat::F32,
        buffer_size: SupportedBufferSize::Range { min: 64, max: 4096 },
        supported_rates: expand_supported_rates(&supported),
        supported_formats: vec![SampleFormat::F32],
        category,
        exclusive_capable: is_raw_hardware_id(id) && category == DeviceCategory::Hardware,
        supported,
    }
}

/// Selection from a host that lists `devices` and names `default_name`.
fn select_from_host(
    devices: &[DeviceInfo],
    default_name: Option<&str>,
    track_rate: u32,
    track_channels: usize,
    preferred: Option<&str>,
) -> Result<ChosenOutput, String> {
    choose_output(devices, default_name, &req_defaults(track_rate, track_channels, preferred))
}

fn rate_range(channels: u16, min: u32, max: u32) -> RateRange {
    RateRange { channels, min, max, buffer_size: SupportedBufferSize::Range { min: 64, max: 4096 } }
}

#[test]
fn choose_output_no_devices_errors() {
    let r = choose_output(&[], None, &req_defaults(44100, 2, None));
    assert_eq!(r.unwrap_err(), "No audio output device found");
}

#[test]
fn choose_output_prefers_requested_device() {
    let devices = vec![
        mock_device("Speakers", 2, 48000, &[(2, 44100, 48000)]),
        mock_device("HDMI", 2, 192000, &[(2, 44100, 192000)]),
    ];
    let chosen = select_from_host(&devices, Some("Speakers"), 44100, 2, Some("HDMI")).unwrap();
    assert_eq!(chosen.device_name, "HDMI");
    assert_eq!(chosen.device_id, "HDMI");
    assert_eq!(chosen.config.sample_rate, 44100);
    assert_eq!(chosen.config.channels, 2);
}

#[test]
fn choose_output_resolves_by_id_over_name() {
    let dac = mock_device_id(
        "hw:CARD=4,DEV=0",
        "ADI-2 DAC (56680121), USB Audio",
        2,
        48000,
        &[(2, 44100, 192000)],
    );
    let devices = vec![dac.clone()];
    let default = Some("ADI-2 DAC (56680121), USB Audio");
    let chosen = select_from_host(&devices, default, 96000, 2, Some("hw:CARD=4,DEV=0")).unwrap();
    assert_eq!(chosen.device_id, "hw:CARD=4,DEV=0");
    assert_eq!(chosen.device_name, "ADI-2 DAC (56680121), USB Audio");
    let chosen =
        select_from_host(&devices, default, 44100, 2, Some("ADI-2 DAC (56680121), USB Audio")).unwrap();
    assert_eq!(chosen.device_id, "hw:CARD=4,DEV=0");
    let chosen = select_from_host(&devices, default, 44100, 2, Some("nope")).unwrap();
    assert_eq!(chosen.device_id, "hw:CARD=4,DEV=0");
    let no_default = vec![dac];
    assert!(select_from_host(&no_default, None, 44100, 2, Some("nope")).is_err());
}

#[test]
fn choose_output_falls_back_to_default_device() {
    let devices = vec![mock_device("Speakers", 2, 48000, &[(2, 44100, 48000)])];
    let chosen = select_from_host(&devices, Some("Speakers"), 48000, 2, None).unwrap();
    assert_eq!(chosen.device_name, "Speakers");
    assert_eq!(chosen.config.sample_rate, 48000);
}

#[test]
fn choose_output_unknown_preferred_errors() {
    let device = mock_device("Speakers", 2, 48000, &[(2, 44100, 48000)]);
    let r = choose_output(&[device], None, &req_defaults(44100, 2, Some("Missing")));
    assert!(r.is_err());
}

#[test]
fn choose_output_preferred_drops_to_default_when_missing() {
    let device = mock_device("Speakers", 2, 48000, &[(2, 44100, 48000)]);
    let chosen =
        choose_output(&[device], Some("Speakers"), &req_defaults(48000, 2, Some("Missing"))).unwrap();
    assert_eq!(chosen.device_name, "Speakers");
}

#[test]
fn choose_output_matches_track_rate_when_supported() {
    let device = mock_device("DAC", 2, 44100, &[(2, 44100, 48000), (2, 88200, 192000)]);
    let chosen = choose_output(&[device], Some("DAC"), &req_defaults(96000, 2, None)).unwrap();
    assert_eq!(chosen.config.sample_rate, 96000);
    assert_eq!(chosen.config.buffer_size, BufferSize::Fixed(target_buffer_frames(192000, 64, 4096)));
}

#[test]
fn choose_output_falls_back_to_device_rate_when_unsupported() {
    let device = mock_device("DAC", 2, 44100, &[(2, 44100, 48000)]);
    let chosen = choose_output(&[device], Some("DAC"), &req_defaults(384000, 1, None)).unwrap();
    assert_eq!(chosen.config.sample_rate, 44100);
    assert_eq!(chosen.config.channels, 1);
}

#[test]
fn choose_output_picks_nearest_supported_when_unsupported() {
    let device = mock_device("DAC", 2, 44100, &[(2, 44100, 48000), (2, 176400, 352800)]);
    let chosen = choose_output(&[device], Some("DAC"), &req_defaults(88200, 2, None)).unwrap();
    assert_eq!(chosen.config.sample_rate, 48000);
}

#[test]
fn choose_output_exact_rate_wins_over_nearest() {
    let device = mock_device("DAC", 2, 44100, &[(2, 44100, 48000), (2, 88200, 96000)]);
    let chosen = choose_output(&[device], Some("DAC"), &req_defaults(96000, 2, None)).unwrap();
    assert_eq!(chosen.config.sample_rate, 96000);
}

#[test]
fn choose_output_clamps_channels_to_device() {
    let mono = mock_device("Mono", 1, 44100, &[(1, 44100, 44100)]);
    let chosen = choose_output(&[mono], Some("Mono"), &req_defaults(44100, 6, None)).unwrap();
    assert_eq!(chosen.config.channels, 1);
    assert_eq!(chosen.config.sample_rate, 44100);
}

#[test]
fn choose_output_unknown_default_errors() {
    let device = mock_device("Speakers", 2, 48000, &[(2, 44100, 48000)]);
    let r = choose_output(&[device], Some("Ghost"), &req_defaults(48000, 2, None));
    assert!(r.is_err());
}

#[test]
fn nearest_rate_exact_returns_requested() {
    let ranges = vec![rate_range(2, 44100, 96000)];
    assert_eq!(nearest_rate(&ranges, 2, 48000), Some(48000));
    assert_eq!(nearest_rate(&ranges, 2, 44100), Some(44100));
    assert_eq!(nearest_rate(&ranges, 2, 96000), Some(96000));
}

#[test]
fn nearest_rate_clamps_to_closest_edge() {
    let ranges = vec![rate_range(2, 44100, 88200)];
    assert_eq!(nearest_rate(&ranges, 2, 176400), Some(88200));
}

#[test]
fn nearest_rate_falls_back_to_lowest_edge() {
    let ranges = vec![rate_range(2, 96000, 192000)];
    assert_eq!(nearest_rate(&ranges, 2, 44100), Some(96000));
}

#[test]
fn nearest_rate_picks_closest_from_44_1_48_families() {
    let ranges = vec![rate_range(2, 44100, 44100), rate_range(2, 192000, 192000)];
    assert_eq!(nearest_rate(&ranges, 2, 176400), Some(192000));
    assert_eq!(nearest_rate(&ranges, 2, 88200), Some(44100));
}

#[test]
fn nearest_rate_picks_nearest_across_many_ranges() {
    let ranges = vec![rate_range(2, 44100, 48000), rate_range(2, 176400, 352800)];
    assert_eq!(nearest_rate(&ranges, 2, 384000), Some(352800));
    assert_eq!(nearest_rate(&ranges, 2, 88200), Some(48000));
}

#[test]
fn nearest_rate_tie_prefers_smaller_rate() {
    let ranges = vec![rate_range(2, 44100, 44100), rate_range(2, 48000, 48000)];
    assert_eq!(nearest_rate(&ranges, 2, 46050), Some(44100));
}

#[test]
fn nearest_rate_no_matching_channel_returns_none() {
    let ranges = vec![rate_range(2, 44100, 192000)];
    assert_eq!(nearest_rate(&ranges, 1, 44100), None);
}

#[test]
fn nearest_rate_empty_ranges_returns_none() {
    assert_eq!(nearest_rate(&[], 2, 44100), None);
}

#[test]
fn device_labels_dedup_group_and_mark_server_nodes() {
    let names: Vec<&str> = vec![
        "ADI-2 DAC (56680121), USB Audio",
        "PipeWire Sound Server",
        "ADI-2 DAC (56680121), USB Audio",
        "Default Audio Device",
        "ADI-2 DAC (56680121)",
    ];
    let pairs = label_device_names(&names);
    assert_eq!(pairs.len(), 4);
    assert_eq!(
        pairs[0],
        (
            "ADI-2 DAC (56680121), USB Audio".to_string(),
            "ADI-2 DAC (56680121), USB Audio".to_string()
        )
    );
    assert_eq!(pairs[1].0, "ADI-2 DAC (56680121)");
    assert_eq!(pairs[1].1, "ADI-2 DAC (56680121)");
    assert_eq!(pairs[2].0, "PipeWire Sound Server");
    assert!(pairs[2].1.contains("(software, resamples)"), "{}", pairs[2].1);
    assert_eq!(pairs[3].0, "Default Audio Device");
    assert!(pairs[3].1.contains("(software, resamples)"), "{}", pairs[3].1);
}

#[test]
fn device_pairs_from_infos_dedupe_group_and_map_stable_ids() {
    let infos = vec![
        mock_device_id("hw:CARD=4,DEV=0", "ADI-2 DAC (56680121), USB Audio", 2, 48000, &[(2, 44100, 192000)]),
        mock_device_id("hw:CARD=4,DEV=1", "ADI-2 DAC (56680121), USB Audio", 2, 48000, &[(2, 44100, 192000)]),
        mock_device_id("pulse", "PipeWire Sound Server", 2, 48000, &[(2, 4000, 4294967295)]),
    ];
    let pairs = device_pairs_from_infos(&infos);
    assert_eq!(pairs.len(), 2);
    assert_eq!(pairs[0].0, "hw:CARD=4,DEV=0");
    assert_eq!(pairs[0].1, "ADI-2 DAC (56680121), USB Audio");
    assert_eq!(pairs[1].0, "pulse");
    assert!(pairs[1].1.contains("(software, resamples)"), "{}", pairs[1].1);
}

#[test]
fn device_pairs_from_infos_maps_id_identical_to_name() {
    let infos =
        vec![mock_device_id("default", "Default Audio Device", 2, 48000, &[(2, 4000, 4294967295)])];
    let mut pairs = device_pairs_from_infos(&infos);
    assert_eq!(pairs.len(), 1);
    assert_eq!(pairs[0].0, "default");
    let name = pairs.pop().unwrap().1;
    assert!(name.contains("(software, resamples)"), "{name}");
}

#[test]
fn device_labels_keep_raw_name_for_lookup() {
    let names: Vec<&str> = vec![
        "Default ALSA Output (currently PulseAudio Sound Server)",
        "USB Audio",
        "PulseAudio Sound Server",
    ];
    let pairs = label_device_names(&names);
    let raws: Vec<&str> = pairs.iter().map(|(r, _)| r.as_str()).collect();
    assert_eq!(raws.len(), 3);
    assert!(raws.contains(&"Default ALSA Output (currently PulseAudio Sound Server)"));
    assert!(raws.contains(&"PulseAudio Sound Server"));
    assert!(is_server_node("Default ALSA Output (currently PulseAudio Sound Server)"));
    assert!(is_server_node("PulseAudio Sound Server"));
    assert!(!is_server_node("USB Audio"));
}

#[test]
fn device_labels_empty_input() {
    assert_eq!(label_device_names(&[] as &[&str]), Vec::<(String, String)>::new());
}

#[test]
fn collapse_same_name_prefers_raw_hw_node() {
    let proxy = mock_device_id(
        "plughw:CARD=4,DEV=0",
        "ADI-2 DAC (56680121), USB Audio",
        2,
        48000,
        &[(2, 4000, 4294967295)],
    );
    let raw = mock_device_id(
        "hw:CARD=4,DEV=0",
        "ADI-2 DAC (56680121), USB Audio",
        2,
        48000,
        &[(2, 44100, 44100), (2, 48000, 48000), (2, 176400, 176400)],
    );
    let mut raws = vec![proxy.clone(), proxy.clone(), raw.clone(), raw.clone()];
    let collapsed = collapse_same_name(raws.clone());
    assert_eq!(collapsed.len(), 1);
    assert_eq!(collapsed[0].id, "hw:CARD=4,DEV=0");
    raws.reverse();
    let collapsed = collapse_same_name(raws);
    assert_eq!(collapsed.len(), 1);
    assert_eq!(collapsed[0].id, "hw:CARD=4,DEV=0");
}

#[test]
fn collapse_same_name_keeps_distinct_names() {
    let devs = vec![
        mock_device("Speakers", 2, 48000, &[(2, 44100, 48000)]),
        mock_device("Default Audio Device", 2, 48000, &[(2, 44100, 48000)]),
        mock_device("Speakers", 2, 48000, &[(2, 44100, 48000)]),
    ];
    let collapsed = collapse_same_name(devs);
    assert_eq!(collapsed.len(), 2);
    assert_eq!(collapsed[0].name, "Speakers");
    assert_eq!(collapsed[1].name, "Default Audio Device");
}

#[test]
fn collapse_same_name_keeps_first_without_hw_variant() {
    let devs = vec![
        mock_device_id("default", "Default Audio Device", 2, 48000, &[(2, 4000, 4294967295)]),
        mock_device_id("front:CARD=4,DEV=0", "Default Audio Device", 2, 48000, &[(2, 4000, 4294967295)]),
    ];
    let collapsed = collapse_same_name(devs);
    assert_eq!(collapsed.len(), 1);
    assert_eq!(collapsed[0].id, "default");
}

#[test]
fn raw_hardware_id_detection() {
    assert!(is_raw_hardware_id("hw:CARD=4,DEV=0"));
    assert!(is_raw_hardware_id("hw:CARD=DAC56680121,DEV=0"));
    assert!(!is_raw_hardware_id("plughw:CARD=4,DEV=0"));
    assert!(!is_raw_hardware_id("default"));
    assert!(!is_raw_hardware_id("front:CARD=4,DEV=0"));
    assert!(!is_raw_hardware_id("sysdefault:CARD=4"));
    assert!(!is_raw_hardware_id(""));
}

#[test]
fn classify_device_hw_is_hardware() {
    assert_eq!(
        classify_device("hw:CARD=4,DEV=0", "ADI-2 DAC (56680121), USB Audio"),
        DeviceCategory::Hardware
    );
    assert_eq!(classify_device("hw=CARD=DAC,DEV=0", "DAC"), DeviceCategory::Hardware);
}

#[test]
fn classify_device_plughw_is_server_proxy() {
    assert_eq!(classify_device("plughw:CARD=4,DEV=0", "x"), DeviceCategory::ServerProxy);
    assert_eq!(classify_device("default", "Default Audio Device"), DeviceCategory::ServerProxy);
    assert_eq!(classify_device("front:CARD=4,DEV=0", "x"), DeviceCategory::ServerProxy);
    assert_eq!(classify_device("surround51:CARD=4", "x"), DeviceCategory::ServerProxy);
    assert_eq!(classify_device("sysdefault:CARD=4", "x"), DeviceCategory::ServerProxy);
}

#[test]
fn classify_device_pipewire_and_pulse_are_server_proxy() {
    assert_eq!(classify_device("pipewire", "PipeWire Sound Server"), DeviceCategory::ServerProxy);
    assert_eq!(
        classify_device("pulse", "Default ALSA Output (currently PulseAudio Sound Server)"),
        DeviceCategory::ServerProxy
    );
}

#[test]
fn classify_device_virtual_and_loopback() {
    assert_eq!(classify_device("dmix:CARD=4", "x"), DeviceCategory::Virtual);
    assert_eq!(classify_device("dsnoop:CARD=4", "x"), DeviceCategory::Virtual);
    assert_eq!(classify_device("softvol:4", "x"), DeviceCategory::Virtual);
    assert_eq!(classify_device("null", "x"), DeviceCategory::Virtual);
    assert_eq!(classify_device("ffmpeg", "x"), DeviceCategory::Virtual);
    assert_eq!(classify_device("loopback", "x"), DeviceCategory::Loopback);
    assert_eq!(classify_device("plughw:CARD=2,DEV=1", "Monitor of Built-in Audio"), DeviceCategory::Loopback);
}

#[test]
fn classify_device_unknown_fallback() {
    assert_eq!(classify_device("weird-node-42", "USB Audio"), DeviceCategory::Unknown);
    assert_eq!(classify_device("", ""), DeviceCategory::Unknown);
}

#[test]
fn supported_rates_sorted_unique() {
    let ranges = vec![
        rate_range(2, 48000, 48000),
        rate_range(2, 44100, 88200),
        rate_range(2, 96000, 192000),
        rate_range(2, 48000, 48000),
    ];
    let rates = expand_supported_rates(&ranges);
    assert_eq!(rates, vec![44100, 48000, 88200, 96000, 192000]);
    for w in rates.windows(2) {
        assert!(w[0] < w[1], "not strictly sorted: {w:?}");
    }
}

#[test]
fn formats_desc_joins_uppercase_labels() {
    let mut dev = mock_device("USB DAC", 2, 48000, &[(2, 44100, 192000)]);
    dev.supported_formats = vec![SampleFormat::I16, SampleFormat::I24, SampleFormat::I32, SampleFormat::F32];
    assert_eq!(dev.formats_desc(), "I16 · I24 · I32 · F32");
}

#[test]
fn formats_dedup_keeps_first_order() {
    let formats =
        [SampleFormat::F32, SampleFormat::I32, SampleFormat::F32, SampleFormat::I24, SampleFormat::I32];
    assert_eq!(dedup_formats(&formats), vec![SampleFormat::F32, SampleFormat::I32, SampleFormat::I24]);
}

#[test]
fn device_info_capability_flags() {
    let stereo = mock_device("USB DAC", 2, 48000, &[(2, 44100, 44100), (2, 88200, 88200)]);
    assert!(stereo.is_stereo());
    assert!(stereo.supports_rate(44100));
    assert!(stereo.supports_rate(88200));
    assert!(!stereo.supports_rate(96000));
    assert!(stereo.supports_format(SampleFormat::F32));
    assert!(!stereo.supports_format(SampleFormat::I32));
    let mono = mock_device("Mono", 1, 44100, &[(1, 44100, 44100)]);
    assert!(!mono.is_stereo());
    let plughw = mock_device_id("plughw:CARD=2,DEV=0", "PipeWire", 2, 48000, &[(2, 4000, 4294967295)]);
    assert!(plughw.supports_rate(44100));
    assert!(plughw.supports_rate(88200));
    assert!(plughw.supports_rate(192000));
}

#[test]
fn clock_families_desc_partial_and_full() {
    let dev = mock_device_id(
        "hw:CARD=1,DEV=0",
        "ADI-2",
        2,
        48000,
        &[(2, 44100, 44100), (2, 88200, 88200), (2, 176400, 176400), (2, 48000, 48000), (2, 96000, 96000)],
    );
    assert_eq!(dev.clock_families_desc(), "44k full (44.1, 88.2, 176.4) · 48k partial (48, 96)");
}

#[test]
fn clock_families_desc_omits_empty_family() {
    let dev = mock_device("DAC", 2, 48000, &[(2, 48000, 48000), (2, 192000, 192000)]);
    assert_eq!(dev.clock_families_desc(), "48k partial (48, 192)");
    let dev = mock_device("PCM-only", 2, 48000, &[(2, 200000, 200000)]);
    assert_eq!(dev.clock_families_desc(), "—");
}

#[test]
fn dop_container_rate_picks_first_supported() {
    let dev = mock_device("DAC", 2, 48000, &[(2, 176400, 176400)]);
    assert_eq!(dev.dop_container_rate(), Some(176400));
    let dev = mock_device("DAC", 2, 48000, &[(2, 352800, 352800), (2, 176400, 176400)]);
    assert_eq!(dev.dop_container_rate(), Some(176400));
    let dev = mock_device("DAC", 2, 48000, &[(2, 705600, 705600)]);
    assert_eq!(dev.dop_container_rate(), Some(705600));
    let dev = mock_device("DAC", 2, 48000, &[(2, 44100, 44100), (2, 96000, 96000)]);
    assert_eq!(dev.dop_container_rate(), None);
}

#[test]
fn desc_methods_empty_device_use_em_dash() {
    let mut dev = mock_device("DAC", 2, 48000, &[]);
    dev.supported_formats = vec![];
    assert_eq!(dev.formats_desc(), "—");
    assert_eq!(dev.clock_families_desc(), "—");
}

#[test]
fn choose_output_exclusive_strict_on_server_fails() {
    let server = mock_device_id("default", "PipeWire", 2, 48000, &[(2, 44100, 48000)]);
    let req = OutputRequest { exclusive: ExclusiveMode::Strict, ..req_off(44100, 2) };
    let r = choose_output(&[server], Some("PipeWire"), &req);
    assert_eq!(r.unwrap_err(), "Exclusive mode unavailable on this device");
}

#[test]
fn choose_output_exclusive_auto_on_server_degrades() {
    let server = mock_device_id("default", "PipeWire", 2, 48000, &[(2, 44100, 48000)]);
    let req = OutputRequest { exclusive: ExclusiveMode::Auto, ..req_off(44100, 2) };
    let chosen = choose_output(&[server], Some("PipeWire"), &req).unwrap();
    assert!(!chosen.exclusive);
    assert_eq!(chosen.fallback, Some(FallbackReason::ExclusiveUnavailable));
}

#[test]
fn choose_output_fallback_fail_returns_error() {
    let device = mock_device("DAC", 2, 44100, &[(2, 44100, 44100)]);
    let req = OutputRequest { track_rate: 192000, fallback: FallbackPolicy::Fail, ..req_off(192000, 2) };
    let r = choose_output(&[device], Some("DAC"), &req);
    assert!(r.unwrap_err().contains("192000"));
}

#[test]
fn choose_output_device_default_ignores_track_rate() {
    let device = mock_device("DAC", 2, 44100, &[(2, 44100, 48000)]);
    let req = OutputRequest { fallback: FallbackPolicy::DeviceDefault, ..req_off(192000, 2) };
    let chosen = choose_output(&[device], Some("DAC"), &req).unwrap();
    assert_eq!(chosen.config.sample_rate, 44100);
    assert!(chosen.resampled);
}

#[test]
fn choose_output_native_mode_requires_exact() {
    let device = mock_device("DAC", 2, 44100, &[(2, 44100, 48000)]);
    let req = OutputRequest { resampler: ResamplerMode::Native, ..req_off(96000, 2) };
    let err = choose_output(&[device], Some("DAC"), &req).unwrap_err();
    assert!(err.contains("Native mode requires exact rate match"));
    assert!(err.contains("96000"));
}

#[test]
fn choose_output_fixed_mode_uses_fixed_rate() {
    let device = mock_device("DAC", 2, 44100, &[(2, 44100, 48000), (2, 88200, 88200), (2, 96000, 192000)]);
    let req = OutputRequest { resampler: ResamplerMode::Fixed, fixed_rate: 88200, ..req_off(88200, 2) };
    let chosen = choose_output(&[device], Some("DAC"), &req).unwrap();
    assert_eq!(chosen.config.sample_rate, 88200);
    assert!(!chosen.resampled);
    assert_eq!(chosen.fallback, None);
}

#[test]
fn choose_output_fixed_mode_uses_family_if_zero() {
    let device = mock_device("DAC", 2, 44100, &[(2, 44100, 44100), (2, 88200, 88200), (2, 176400, 176400)]);
    let req = OutputRequest {
        resampler: ResamplerMode::Fixed,
        fixed_rate: 0,
        clock_family: ClockFamily::Family44k,
        ..req_off(44100, 2)
    };
    let chosen = choose_output(&[device], Some("DAC"), &req).unwrap();
    assert_eq!(chosen.config.sample_rate, 176400);
    assert!(chosen.resampled);
    assert_eq!(chosen.fallback, Some(FallbackReason::ResamplerForced { requested: 44100 }));
}

#[test]
fn choose_output_fixed_mode_unsupported_rate_falls_to_nearest() {
    let device = mock_device("DAC", 2, 44100, &[(2, 44100, 44100), (2, 48000, 48000), (2, 96000, 96000)]);
    let req = OutputRequest { resampler: ResamplerMode::Fixed, fixed_rate: 88200, ..req_off(44100, 2) };
    let chosen = choose_output(&[device], Some("DAC"), &req).unwrap();
    assert_eq!(chosen.config.sample_rate, 96000);
    assert_eq!(
        chosen.fallback,
        Some(FallbackReason::RateUnsupported { requested: 88200, chosen: 96000, cross_family: true })
    );
}

#[test]
fn choose_output_fixed_mode_auto_empty_family_falls_to_device_default() {
    let device = mock_device("DAC", 2, 48000, &[(2, 48000, 48000), (2, 96000, 96000)]);
    let req = OutputRequest {
        resampler: ResamplerMode::Fixed,
        fixed_rate: 0,
        clock_family: ClockFamily::Family44k,
        ..req_off(88200, 2)
    };
    let chosen = choose_output(&[device], Some("DAC"), &req).unwrap();
    assert_eq!(chosen.config.sample_rate, 48000);
    assert_eq!(
        chosen.fallback,
        Some(FallbackReason::ClockFamilyIncomplete { requested: 88200, chosen: 48000 })
    );
}

#[test]
fn choose_output_fallback_rate_same_family() {
    let device = mock_device(
        "DAC",
        2,
        44100,
        &[(2, 44100, 44100), (2, 48000, 48000), (2, 96000, 96000), (2, 192000, 192000)],
    );
    let req = OutputRequest { fallback_rate: FallbackRatePolicy::SameFamily, ..req_off(88200, 2) };
    let chosen = choose_output(&[device], Some("DAC"), &req).unwrap();
    assert_eq!(chosen.config.sample_rate, 44100);
    assert_eq!(
        chosen.fallback,
        Some(FallbackReason::RateUnsupported { requested: 88200, chosen: 44100, cross_family: false })
    );
}

#[test]
fn choose_output_fallback_rate_never_downsample() {
    let device = mock_device("DAC", 2, 44100, &[(2, 44100, 44100), (2, 48000, 48000), (2, 96000, 96000)]);
    let req = OutputRequest { fallback_rate: FallbackRatePolicy::NeverDownsample, ..req_off(192000, 2) };
    let r = choose_output(&[device], Some("DAC"), &req);
    assert!(r.unwrap_err().contains("192000"));
}

fn chosen_stream(resampled: bool, out_rate: u32, source_rate: u32) -> ChosenOutput {
    ChosenOutput {
        device_id: "hw:CARD=4,DEV=0".into(),
        device_name: "ADI-2".into(),
        config: StreamConfig { channels: 2, sample_rate: out_rate, buffer_size: BufferSize::Default },
        sample_format: SampleFormat::I32,
        exclusive: true,
        resampled,
        source_rate,
        source_channels: 2,
        fallback: None,
    }
}

#[test]
fn describe_stream_includes_resampled_marker() {
    let s = describe_stream(&chosen_stream(true, 48000, 96000));
    assert!(s.contains("48000 Гц · I32 · Exclusive"));
    assert!(s.contains("ресемплинг из 96000"));
    let s = describe_stream(&chosen_stream(false, 48000, 48000));
    assert!(s.contains("48000 Гц · I32 · Exclusive"));
    assert!(!s.contains("ресемплинг"));
    let shared = ChosenOutput { exclusive: false, ..chosen_stream(false, 48000, 48000) };
    assert!(describe_stream(&shared).contains("Shared"));
}

fn row_by_source<'a>(rows: &'a [ValidationRow], source: &str) -> &'a ValidationRow {
    rows.iter().find(|r| r.source == source).expect("row present")
}

#[test]
fn validate_returns_11_rows() {
    let device = mock_device("DAC", 2, 44100, &[(2, 44100, 192000)]);
    let rows = validate_audio_settings(&device, &Settings::default());
    assert_eq!(rows.len(), 11);
}

#[test]
fn validate_pcm_native_when_rate_supported() {
    let mut s = Settings::default();
    s.audio.resampler.mode = ResamplerMode::Native;
    s.audio.exclusive = ExclusiveMode::Auto;
    let hw = mock_device_id(
        "hw:CARD=0,DEV=0",
        "RME ADI-2",
        2,
        96000,
        &[(2, 44100, 44100), (2, 48000, 48000), (2, 96000, 192000)],
    );
    let rows = validate_audio_settings(&hw, &s);
    let row = row_by_source(&rows, "96k PCM");
    assert_eq!(row.outcome, Outcome::BitPerfect);
    assert_eq!(row.detail, "native, exclusive access");
}

#[test]
fn validate_pcm_degraded_when_nearest() {
    let mut s = Settings::default();
    s.audio.exclusive = ExclusiveMode::Off;
    let server = mock_device_id("default", "PipeWire", 2, 48000, &[(2, 44100, 48000)]);
    let rows = validate_audio_settings(&server, &s);
    let row = row_by_source(&rows, "96k PCM");
    assert_eq!(row.outcome, Outcome::Degraded);
    assert!(row.detail.contains("resampled"), "{}", row.detail);
}

#[test]
fn validate_pcm_unsupported_when_fail() {
    let mut s = Settings::default();
    s.audio.fallback = FallbackPolicy::Fail;
    s.audio.exclusive = ExclusiveMode::Off;
    let server = mock_device_id("default", "PipeWire", 2, 48000, &[(2, 44100, 48000)]);
    let rows = validate_audio_settings(&server, &s);
    let row = row_by_source(&rows, "96k PCM");
    assert_eq!(row.outcome, Outcome::Unsupported);
    assert!(row.detail.contains("96000"), "{}", row.detail);
}

#[test]
fn validate_pcm_cross_family_detail() {
    let mut s = Settings::default();
    s.audio.exclusive = ExclusiveMode::Off;
    let hw = mock_device("DAC", 2, 44100, &[(2, 44100, 44100), (2, 48000, 48000), (2, 96000, 96000)]);
    let rows = validate_audio_settings(&hw, &s);
    let row = row_by_source(&rows, "88.2k PCM");
    assert_eq!(row.outcome, Outcome::Degraded);
    assert!(row.detail.contains("cross-family"), "{}", row.detail);
}

#[test]
fn validate_pcm_native_bp_unsupported() {
    let mut s = Settings::default();
    s.audio.resampler.mode = ResamplerMode::Native;
    s.audio.bit_perfect = true;
    s.audio.exclusive = ExclusiveMode::Auto;
    let hw = mock_device("DAC", 2, 44100, &[(2, 44100, 48000)]);
    let rows = validate_audio_settings(&hw, &s);
    let row = row_by_source(&rows, "96k PCM");
    assert_eq!(row.outcome, Outcome::Unsupported);
    assert!(row.detail.contains("Native mode requires exact rate match"), "{}", row.detail);
}

#[test]
fn validate_dsd_bitperfect_when_dop_slot_supported() {
    let mut s = Settings::default();
    s.dsd.mode = DsdMode::Native;
    s.audio.exclusive = ExclusiveMode::Auto;
    let hw = mock_device_id("hw:CARD=0,DEV=1", "ADI-2", 2, 176400, &[(2, 44100, 44100), (2, 176400, 176400)]);
    let rows = validate_audio_settings(&hw, &s);
    let row = row_by_source(&rows, "DSD64");
    assert_eq!(row.outcome, Outcome::BitPerfect);
    assert_eq!(row.detail, "DoP");
}

#[test]
fn validate_dsd_degraded_when_chain_falls_to_pcm() {
    let mut s = Settings::default();
    s.dsd.mode = DsdMode::DoP;
    s.audio.exclusive = ExclusiveMode::Off;
    let server = mock_device_id("default", "PipeWire", 2, 44100, &[(2, 44100, 48000)]);
    let rows = validate_audio_settings(&server, &s);
    let row = row_by_source(&rows, "DSD64");
    assert_eq!(row.outcome, Outcome::Degraded);
    assert!(row.detail.contains("PCM @ 44100"), "{}", row.detail);
}

#[test]
fn validate_dsd_unsupported_when_fail() {
    let mut s = Settings::default();
    s.dsd.mode = DsdMode::Pcm;
    s.audio.fallback = FallbackPolicy::Fail;
    s.audio.exclusive = ExclusiveMode::Off;
    let server = mock_device_id("default", "PipeWire", 2, 44100, &[(2, 44100, 48000)]);
    let rows = validate_audio_settings(&server, &s);
    let row = row_by_source(&rows, "DSD64");
    assert_eq!(row.outcome, Outcome::Unsupported);
    assert_eq!(row.detail, "unsupported");
}

#[test]
fn device_description_from_backend_data() {
    let sup = vec![rate_range(6, 44100, 48000), rate_range(2, 44100, 192000), rate_range(2, 44100, 44100)];
    let formats = vec![SampleFormat::I16, SampleFormat::I32, SampleFormat::I16];
    let with_default = DefaultConfig {
        channels: 2,
        sample_rate: 48000,
        sample_format: SampleFormat::I32,
        buffer_size: SupportedBufferSize::Unknown,
    };
    let d = device_info_from(
        "hw:CARD=4,DEV=0".into(),
        "ADI-2".into(),
        sup.clone(),
        formats.clone(),
        Some(with_default),
    )
    .unwrap();
    assert_eq!(d.sample_rate, 48000);
    assert_eq!(d.buffer_size, SupportedBufferSize::Unknown);
    assert_eq!(d.category, DeviceCategory::Hardware);
    assert!(d.exclusive_capable);
    assert_eq!(d.supported_rates, vec![44100, 48000, 192000]);
    assert_eq!(d.supported_formats, vec![SampleFormat::I16, SampleFormat::I32]);

    // Without a default the first stereo configuration is taken, at its
    // lowest rate and with its own format.
    let d = device_info_from("pulse".into(), "PulseAudio Sound Server".into(), sup, formats, None).unwrap();
    assert_eq!((d.channels, d.sample_rate, d.sample_format), (2, 44100, SampleFormat::I32));
    assert_eq!(d.category, DeviceCategory::ServerProxy);
    assert!(!d.exclusive_capable);

    // Mono-only: the first configuration.
    let mono = vec![rate_range(1, 8000, 48000)];
    let d = device_info_from("x".into(), "x".into(), mono, vec![SampleFormat::F32], None).unwrap();
    assert_eq!((d.channels, d.sample_rate), (1, 8000));

    // Nothing known at all: left out.
    assert!(device_info_from("x".into(), "x".into(), vec![], vec![], None).is_none());
}
