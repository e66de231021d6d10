use music_player_rs::audio::output::FallbackReason;
use music_player_rs::audio::player::StreamDesc;
use music_player_rs::report::{
    action_for, build_bp_report, current_source_desc, describe_stream_desc, BpAction, BpInputs,
    Severity, SourceInfo,
};
use music_player_rs::settings::{DsdMode, ResamplerDither};

fn stream(resampled: bool, exclusive: bool) -> StreamDesc {
    StreamDesc {
        device: "ADI-2".into(),
        rate: 48000,
        channels: 2,
        format: "I32",
        exclusive,
        exclusive_fallback: false,
        resampled,
        source_rate: if resampled { 96000 } else { 48000 },
        source_channels: 2,
        dsd_mode: None,
        dsd_preferred: None,
        dsd_fallback_reason: None,
        fallback: None::<FallbackReason>,
    }
}

fn inputs() -> BpInputs {
    BpInputs {
        bit_perfect: true,
        stream: Some(stream(false, true)),
        source: None,
        volume_below_full: false,
        volume_title: "Громкость 80%".into(),
        volume_detail: "-1.9 dB".into(),
        muted: false,
        dither: ResamplerDither::Off,
        current_track_is_dsd: false,
    }
}

#[test]
fn bp_report_marks_volume_issue() {
    // The player starts below full volume.
    let i = BpInputs { volume_below_full: true, ..inputs() };
    let report = build_bp_report(&i);
    assert!(!report.reasons.is_empty());
    assert_eq!(report.reasons[0].title, "Громкость 80%");
    assert_eq!(report.reasons[0].action_id, 1);
    assert!(!report.bp_active);
}

#[test]
fn bp_report_clean_stream_is_active() {
    let report = build_bp_report(&inputs());
    assert!(report.reasons.is_empty());
    assert!(report.bp_active);
    assert_eq!(report.stream_desc, "48000 Гц · I32 · Exclusive");
    assert_eq!(report.source_desc, "Нет трека");
    assert!(report.positives.contains(&"✓ Выдан exclusive-доступ".to_string()));
}

#[test]
fn bp_report_lists_reasons_in_order() {
    let mut s = stream(true, false);
    s.dsd_mode = Some(DsdMode::Pcm);
    let i = BpInputs {
        stream: Some(s),
        muted: true,
        dither: ResamplerDither::Tpdf,
        current_track_is_dsd: true,
        ..inputs()
    };
    let report = build_bp_report(&i);
    let titles: Vec<&str> = report.reasons.iter().map(|r| r.title.as_str()).collect();
    assert_eq!(
        titles,
        vec!["Приглушено", "Ресемплинг включён", "Общий доступ (shared)", "Конвертация DSD → PCM", "Дизеринг активен"]
    );
    assert_eq!(report.reasons[1].detail, "96000 → 48000 (устройство не поддерживает 96000)");
    assert_eq!(report.reasons[4].detail, "Применён Tpdf дизеринг");
    assert!(report.reasons.iter().all(|r| r.severity == Severity::Warning));
    assert!(!report.bp_active);
}

#[test]
fn stream_and_source_descriptions() {
    assert_eq!(describe_stream_desc(None), "Нет активного потока");
    assert_eq!(describe_stream_desc(Some(&stream(true, false))), "48000 Гц · I32 · Shared · ресемплинг из 96000");
    let src = SourceInfo { format: "FLAC".into(), bit_depth: "24 bit".into(), sample_rate: 96000, channels: 2 };
    assert_eq!(current_source_desc(Some(&src)), "FLAC · 24 bit · 96000 Hz · 2 ch");
    let empty = SourceInfo { format: String::new(), bit_depth: String::new(), sample_rate: 0, channels: 0 };
    assert_eq!(current_source_desc(Some(&empty)), "Нет трека");
}

#[test]
fn report_actions() {
    assert_eq!(action_for(1), BpAction::FullVolume);
    assert_eq!(action_for(2), BpAction::Unmute);
    assert_eq!(action_for(3), BpAction::DitherOff);
    assert_eq!(action_for(0), BpAction::Nothing);
}
