//! The bit-perfect report: why the current output is (not) bit-perfect and
//! what the user can do about it.

use vstd::prelude::*;

use crate::audio::player::StreamDesc;
use crate::settings::{DsdMode, ResamplerDither};
use crate::text::{append_dec, append_part, append_str, dec, join, lemma_join_push, owned, str_eq};

verus! {

/// Severity of a report entry.
#[derive(Debug, Clone, Copy, PartialEq, Eq, Structural)]
pub enum Severity {
    Warning,
    Info,
}

/// One reason the output is not bit-perfect.
#[derive(Debug, Clone)]
pub struct BpReason {
    pub severity: Severity,
    pub title: String,
    pub detail: String,
    /// Fix offered by the dialog (0 = none, see [`BpAction`]).
    pub action_id: i32,
    pub action_label: String,
}

/// The report shown in the bit-perfect dialog.
#[derive(Debug, Clone)]
pub struct BpReport {
    pub bp_active: bool,
    pub stream_desc: String,
    pub source_desc: String,
    pub reasons: Vec<BpReason>,
    pub positives: Vec<String>,
}

/// Technical data of the current track.
#[derive(Debug, Clone)]
pub struct SourceInfo {
    pub format: String,
    pub bit_depth: String,
    pub sample_rate: u32,
    pub channels: u32,
}

/// What the report is built from. The volume texts are rendered by the
/// caller (they hold the formatted level and attenuation).
#[derive(Debug, Clone)]
pub struct BpInputs {
    pub bit_perfect: bool,
    pub stream: Option<StreamDesc>,
    pub source: Option<SourceInfo>,
    /// Software volume below 100%.
    pub volume_below_full: bool,
    pub volume_title: String,
    pub volume_detail: String,
    pub muted: bool,
    pub dither: ResamplerDither,
    pub current_track_is_dsd: bool,
}

pub type ReasonView = (Severity, Seq<char>, Seq<char>, i32, Seq<char>);

pub open spec fn reason_view(r: BpReason) -> ReasonView {
    (r.severity, r.title@, r.detail@, r.action_id, r.action_label@)
}

pub open spec fn reason_views(rs: Seq<BpReason>) -> Seq<ReasonView> {
    rs.map_values(|r: BpReason| reason_view(r))
}

pub open spec fn string_views(v: Seq<String>) -> Seq<Seq<char>> {
    v.map_values(|s: String| s@)
}

pub open spec fn when(c: bool, x: ReasonView) -> Seq<ReasonView> {
    if c {
        seq![x]
    } else {
        Seq::empty()
    }
}

pub open spec fn when_text(c: bool, x: Seq<char>) -> Seq<Seq<char>> {
    if c {
        seq![x]
    } else {
        Seq::empty()
    }
}

pub open spec fn dither_name(d: ResamplerDither) -> Seq<char> {
    match d {
        ResamplerDither::Tpdf => "Tpdf"@,
        ResamplerDither::Triangular => "Triangular"@,
        ResamplerDither::Off => "Off"@,
    }
}

pub open spec fn resample_reason(d: StreamDesc) -> ReasonView {
    (
        Severity::Warning,
        "Ресемплинг включён"@,
        dec(d.source_rate as nat) + " → "@ + dec(d.rate as nat) + " (устройство не поддерживает "@
            + dec(d.source_rate as nat) + ")"@,
        0,
        ""@,
    )
}

pub open spec fn shared_reason() -> ReasonView {
    (Severity::Warning, "Общий доступ (shared)"@, "Устройство работает в shared-режиме"@, 0, ""@)
}

pub open spec fn exclusive_refused_reason() -> ReasonView {
    (
        Severity::Warning,
        "Exclusive недоступен"@,
        "Устройство отклонило exclusive; используется shared"@,
        0,
        ""@,
    )
}

pub open spec fn dsd_to_pcm_reason() -> ReasonView {
    (Severity::Warning, "Конвертация DSD → PCM"@, "Децимация CIC ломает bit-perfect"@, 0, ""@)
}

pub open spec fn dop_fallback_reason(reason: Seq<char>) -> ReasonView {
    (
        Severity::Info,
        "DoP применяется вместо Native"@,
        reason + " (bit-perfect поток сохраняется через DoP)"@,
        0,
        ""@,
    )
}

/// Reasons that come from the stream, in report order.
pub open spec fn stream_reasons(d: StreamDesc, is_dsd: bool) -> Seq<ReasonView> {
    when(d.resampled, resample_reason(d)) + when(
        !d.exclusive && !d.exclusive_fallback,
        shared_reason(),
    ) + when(d.exclusive_fallback, exclusive_refused_reason()) + when(
        d.dsd_mode == Some(DsdMode::Pcm) && is_dsd,
        dsd_to_pcm_reason(),
    ) + match d.dsd_fallback_reason {
        Some(reason) => seq![dop_fallback_reason(reason@)],
        None => Seq::empty(),
    }
}

pub open spec fn volume_reason(i: BpInputs) -> ReasonView {
    (Severity::Warning, i.volume_title@, i.volume_detail@, 1, "Поставить 100%"@)
}

pub open spec fn mute_reason() -> ReasonView {
    (Severity::Warning, "Приглушено"@, "Приглушено в аудио-колбэке"@, 2, "Включить звук"@)
}

pub open spec fn dither_reason(d: ResamplerDither) -> ReasonView {
    (
        Severity::Warning,
        "Дизеринг активен"@,
        "Применён "@ + dither_name(d) + " дизеринг"@,
        3,
        "Отключить дизеринг"@,
    )
}

pub open spec fn reasons_of_stream(i: BpInputs) -> Seq<ReasonView> {
    match i.stream {
        Some(d) => stream_reasons(d, i.current_track_is_dsd),
        None => Seq::empty(),
    }
}

/// All reasons, in report order: volume, mute, the stream's, dither.
pub open spec fn spec_reasons(i: BpInputs) -> Seq<ReasonView> {
    when(i.volume_below_full, volume_reason(i)) + when(i.muted, mute_reason()) + reasons_of_stream(
        i,
    ) + when(i.dither != ResamplerDither::Off, dither_reason(i.dither))
}

/// What is already bit-perfect, in report order.
pub open spec fn spec_positives(i: BpInputs) -> Seq<Seq<char>> {
    let from_stream = match i.stream {
        Some(d) => when_text(d.exclusive, "✓ Выдан exclusive-доступ"@) + when_text(
            !d.resampled,
            "✓ Native-частота принята (без ресемплинга)"@,
        ) + when_text(d.format@ == "I32"@, "✓ Принят поток I32"@),
        None => Seq::empty(),
    };
    from_stream + when_text(i.dither == ResamplerDither::Off, "✓ Дизеринг не применяется"@) + when_text(
        !i.volume_below_full && !i.muted,
        "✓ Программная громкость не применяется"@,
    ) + when_text(i.stream is Some, "✓ Обнаружено устройство с поддержкой exclusive"@)
}

/// "48000 Гц · I32 · Exclusive" (with " · ресемплинг из 96000" when
/// resampled), or "Нет активного потока".
pub open spec fn spec_stream_desc_text(d: Option<StreamDesc>) -> Seq<char> {
    match d {
        None => "Нет активного потока"@,
        Some(d) => dec(d.rate as nat) + " Гц · "@ + d.format@ + " · "@ + (if d.exclusive {
            "Exclusive"@
        } else {
            "Shared"@
        }) + (if d.resampled {
            " · ресемплинг из "@ + dec(d.source_rate as nat)
        } else {
            Seq::empty()
        }),
    }
}

/// The non-empty parts of the current track's description.
pub open spec fn source_parts(s: SourceInfo) -> Seq<Seq<char>> {
    when_text(s.format@.len() > 0, s.format@) + when_text(s.bit_depth@.len() > 0, s.bit_depth@)
        + when_text(s.sample_rate > 0, dec(s.sample_rate as nat) + " Hz"@) + when_text(
        s.channels > 0,
        dec(s.channels as nat) + " ch"@,
    )
}

/// "FLAC · 24 bit · 96000 Hz · 2 ch", or "Нет трека".
pub open spec fn spec_current_source_desc(s: Option<SourceInfo>) -> Seq<char> {
    match s {
        None => "Нет трека"@,
        Some(s) => if source_parts(s).len() == 0 {
            "Нет трека"@
        } else {
            join(source_parts(s), " · "@)
        },
    }
}

/// Description of the output stream for the report.
pub fn describe_stream_desc(desc: Option<&StreamDesc>) -> (r: String)
    ensures
        r@ == spec_stream_desc_text(
            match desc {
                Some(d) => Some(*d),
                None => None,
            },
        ),
{
    match desc {
        None => owned("Нет активного потока"),
        Some(d) => {
            let mut s = String::new();
            append_dec(&mut s, d.rate as u64);
            append_str(&mut s, " Гц · ");
            append_str(&mut s, d.format);
            append_str(&mut s, " · ");
            if d.exclusive {
                append_str(&mut s, "Exclusive");
            } else {
                append_str(&mut s, "Shared");
            }
            if d.resampled {
                append_str(&mut s, " · ресемплинг из ");
                append_dec(&mut s, d.source_rate as u64);
            }
            s
        },
    }
}

fn push_part(parts: &mut Vec<String>, p: String)
    ensures
        string_views(final(parts)@) == string_views(old(parts)@).push(p@),
{
    let ghost before = parts@;
    parts.push(p);
    assert(string_views(parts@) =~= string_views(before).push(p@));
}

/// Description of the current track: its non-empty technical parts joined
/// with " · ".
pub fn current_source_desc(source: Option<&SourceInfo>) -> (r: String)
    ensures
        r@ == spec_current_source_desc(
            match source {
                Some(s) => Some(*s),
                None => None,
            },
        ),
{
    let s = match source {
        None => {
            return owned("Нет трека");
        },
        Some(s) => s,
    };
    let mut parts: Vec<String> = Vec::new();
    if !s.format.as_str().is_empty() {
        push_part(&mut parts, owned(s.format.as_str()));
    }
    if !s.bit_depth.as_str().is_empty() {
        push_part(&mut parts, owned(s.bit_depth.as_str()));
    }
    if s.sample_rate > 0 {
        let mut t = String::new();
        append_dec(&mut t, s.sample_rate as u64);
        append_str(&mut t, " Hz");
        push_part(&mut parts, t);
    }
    if s.channels > 0 {
        let mut t = String::new();
        append_dec(&mut t, s.channels as u64);
        append_str(&mut t, " ch");
        push_part(&mut parts, t);
    }
    assert(string_views(parts@) =~= source_parts(*s));
    if parts.len() == 0 {
        return owned("Нет трека");
    }
    let ghost ps = string_views(parts@);
    let mut out = String::new();
    let mut i: usize = 0;
    while i < parts.len()
        invariant
            i <= parts@.len(),
            ps == string_views(parts@),
            out@ == join(ps.take(i as int), " · "@),
        decreases parts.len() - i,
    {
        proof {
            assert(ps.take(i + 1) =~= ps.take(i as int).push(parts@[i as int]@));
            lemma_join_push(ps.take(i as int), " · "@, parts@[i as int]@);
        }
        append_part(&mut out, i == 0, " · ", parts[i].as_str());
        i += 1;
    }
    assert(ps.take(ps.len() as int) =~= ps);
    out
}

fn reason(severity: Severity, title: String, detail: String, action_id: i32, label: &str) -> (r:
    BpReason)
    ensures
        reason_view(r) == (severity, title@, detail@, action_id, label@),
{
    BpReason { severity, title, detail, action_id, action_label: owned(label) }
}

fn push_reason(rs: &mut Vec<BpReason>, r: BpReason)
    ensures
        reason_views(final(rs)@) == reason_views(old(rs)@).push(reason_view(r)),
{
    let ghost before = rs@;
    rs.push(r);
    assert(reason_views(rs@) =~= reason_views(before).push(reason_view(r)));
}

fn stream_reasons_exec(rs: &mut Vec<BpReason>, d: &StreamDesc, is_dsd: bool)
    ensures
        reason_views(final(rs)@) == reason_views(old(rs)@) + stream_reasons(*d, is_dsd),
{
    let ghost r0 = reason_views(rs@);
    if d.resampled {
        let mut detail = String::new();
        append_dec(&mut detail, d.source_rate as u64);
        append_str(&mut detail, " → ");
        append_dec(&mut detail, d.rate as u64);
        append_str(&mut detail, " (устройство не поддерживает ");
        append_dec(&mut detail, d.source_rate as u64);
        append_str(&mut detail, ")");
        push_reason(rs, reason(Severity::Warning, owned("Ресемплинг включён"), detail, 0, ""));
    }
    let ghost r1 = reason_views(rs@);
    assert(r1 =~= r0 + when(d.resampled, resample_reason(*d)));
    if !d.exclusive && !d.exclusive_fallback {
        push_reason(
            rs,
            reason(
                Severity::Warning,
                owned("Общий доступ (shared)"),
                owned("Устройство работает в shared-режиме"),
                0,
                "",
            ),
        );
    }
    let ghost r2 = reason_views(rs@);
    assert(r2 =~= r1 + when(!d.exclusive && !d.exclusive_fallback, shared_reason()));
    if d.exclusive_fallback {
        push_reason(
            rs,
            reason(
                Severity::Warning,
                owned("Exclusive недоступен"),
                owned("Устройство отклонило exclusive; используется shared"),
                0,
                "",
            ),
        );
    }
    let ghost r3 = reason_views(rs@);
    assert(r3 =~= r2 + when(d.exclusive_fallback, exclusive_refused_reason()));
    if d.dsd_mode == Some(DsdMode::Pcm) && is_dsd {
        push_reason(
            rs,
            reason(
                Severity::Warning,
                owned("Конвертация DSD → PCM"),
                owned("Децимация CIC ломает bit-perfect"),
                0,
                "",
            ),
        );
    }
    let ghost r4 = reason_views(rs@);
    assert(r4 =~= r3 + when(d.dsd_mode == Some(DsdMode::Pcm) && is_dsd, dsd_to_pcm_reason()));
    match &d.dsd_fallback_reason {
        Some(reason_text) => {
            let mut detail = owned(reason_text.as_str());
            append_str(&mut detail, " (bit-perfect поток сохраняется через DoP)");
            push_reason(
                rs,
                reason(Severity::Info, owned("DoP применяется вместо Native"), detail, 0, ""),
            );
        },
        None => {},
    }
    assert(reason_views(rs@) =~= r0 + stream_reasons(*d, is_dsd));
}

fn collect_reasons(i: &BpInputs) -> (r: Vec<BpReason>)
    ensures
        reason_views(r@) == spec_reasons(*i),
{
    let mut reasons: Vec<BpReason> = Vec::new();
    if i.volume_below_full {
        push_reason(
            &mut reasons,
            reason(
                Severity::Warning,
                owned(i.volume_title.as_str()),
                owned(i.volume_detail.as_str()),
                1,
                "Поставить 100%",
            ),
        );
    }
    let ghost a = reason_views(reasons@);
    assert(a =~= when(i.volume_below_full, volume_reason(*i)));
    if i.muted {
        push_reason(
            &mut reasons,
            reason(
                Severity::Warning,
                owned("Приглушено"),
                owned("Приглушено в аудио-колбэке"),
                2,
                "Включить звук",
            ),
        );
    }
    let ghost b = reason_views(reasons@);
    assert(b =~= a + when(i.muted, mute_reason()));
    match &i.stream {
        Some(d) => stream_reasons_exec(&mut reasons, d, i.current_track_is_dsd),
        None => {},
    }
    let ghost c = reason_views(reasons@);
    assert(c =~= b + reasons_of_stream(*i));
    if i.dither != ResamplerDither::Off {
        let mut detail = owned("Применён ");
        append_str(
            &mut detail,
            match i.dither {
                ResamplerDither::Tpdf => "Tpdf",
                ResamplerDither::Triangular => "Triangular",
                ResamplerDither::Off => "Off",
            },
        );
        append_str(&mut detail, " дизеринг");
        push_reason(
            &mut reasons,
            reason(Severity::Warning, owned("Дизеринг активен"), detail, 3, "Отключить дизеринг"),
        );
    }
    assert(reason_views(reasons@) =~= c + when(
        i.dither != ResamplerDither::Off,
        dither_reason(i.dither),
    ));
    reasons
}

fn collect_positives(i: &BpInputs) -> (r: Vec<String>)
    ensures
        string_views(r@) == spec_positives(*i),
{
    let mut positives: Vec<String> = Vec::new();
    match &i.stream {
        Some(d) => {
            if d.exclusive {
                push_part(&mut positives, owned("✓ Выдан exclusive-доступ"));
            }
            if !d.resampled {
                push_part(&mut positives, owned("✓ Native-частота принята (без ресемплинга)"));
            }
            if str_eq(d.format, "I32") {
                push_part(&mut positives, owned("✓ Принят поток I32"));
            }
        },
        None => {},
    }
    if i.dither == ResamplerDither::Off {
        push_part(&mut positives, owned("✓ Дизеринг не применяется"));
    }
    if !i.volume_below_full && !i.muted {
        push_part(&mut positives, owned("✓ Программная громкость не применяется"));
    }
    if i.stream.is_some() {
        push_part(&mut positives, owned("✓ Обнаружено устройство с поддержкой exclusive"));
    }
    assert(string_views(positives@) =~= spec_positives(*i));
    positives
}

/// Build the report: every reason that breaks bit-perfect output (with the
/// fix the dialog offers), what already is bit-perfect, and whether
/// bit-perfect mode is effectively active (on, with no reason against it).
pub fn build_bp_report(i: &BpInputs) -> (r: BpReport)
    ensures
        r.bp_active == (i.bit_perfect && spec_reasons(*i).len() == 0),
        reason_views(r.reasons@) == spec_reasons(*i),
        string_views(r.positives@) == spec_positives(*i),
        r.stream_desc@ == spec_stream_desc_text(i.stream),
        r.source_desc@ == spec_current_source_desc(i.source),
{
    let stream_desc = describe_stream_desc(
        match &i.stream {
            Some(d) => Some(d),
            None => None,
        },
    );
    let source_desc = current_source_desc(
        match &i.source {
            Some(s) => Some(s),
            None => None,
        },
    );
    let reasons = collect_reasons(i);
    let positives = collect_positives(i);
    let bp_active = i.bit_perfect && reasons.len() == 0;
    BpReport { bp_active, stream_desc, source_desc, reasons, positives }
}

/// A fix offered in the report.
#[derive(Debug, Clone, Copy, PartialEq, Eq, Structural)]
pub enum BpAction {
    /// Set the software volume to 100%.
    FullVolume,
    /// Unmute.
    Unmute,
    /// Turn dithering off.
    DitherOff,
    /// Nothing to do.
    Nothing,
}

/// The fix behind a report action id (1 volume, 2 mute, 3 dither).
pub fn action_for(action_id: i32) -> (r: BpAction)
    ensures
        r == if action_id == 1 {
            BpAction::FullVolume
        } else if action_id == 2 {
            BpAction::Unmute
        } else if action_id == 3 {
            BpAction::DitherOff
        } else {
            BpAction::Nothing
        },
{
    match action_id {
        1 => BpAction::FullVolume,
        2 => BpAction::Unmute,
        3 => BpAction::DitherOff,
        _ => BpAction::Nothing,
    }
}

/// Bit-perfect is reported active only when the mode is on and nothing
/// stands against it; in particular never while muted, below full volume,
/// resampling or dithering.
pub proof fn law_bp_active_only_without_reasons(i: BpInputs)
    ensures
        (i.bit_perfect && spec_reasons(i).len() == 0) ==> {
            &&& !i.muted
            &&& !i.volume_below_full
            &&& i.dither == ResamplerDither::Off
            &&& (i.stream matches Some(d) ==> !d.resampled)
        },
{
    if i.muted || i.volume_below_full || i.dither != ResamplerDither::Off {
        assert(spec_reasons(i).len() > 0);
    }
    match i.stream {
        Some(d) => {
            if d.resampled {
                assert(stream_reasons(d, i.current_track_is_dsd).len() > 0);
                assert(spec_reasons(i).len() > 0);
            }
        },
        None => {},
    }
}

} // verus!
