//! The settings page of the native dashboard: which value each setting
//! button moves to, the status line it answers with, and the text that
//! shows each setting's value.

use vstd::prelude::*;
use crate::text::{decimal, push_decimal, push_str, string_from_chars, owned};

verus! {

broadcast use vstd::string::group_string_axioms;

/// A setting on the settings page.
#[derive(Clone, Copy, Debug, PartialEq, Eq, Structural)]
pub enum NativeSetting {
    VideoMaxSize,
    VideoMaxFps,
    VideoBitRate,
    VideoCodec,
    CaptureOrientation,
    AudioEnabled,
    AudioCodec,
    AudioBitRate,
    AlwaysOnTop,
    TitlebarVisible,
    MappingOpacity,
    StayAwake,
    ClipboardSync,
}

/// Video codecs of the projection.
#[derive(Clone, Copy, Debug, PartialEq, Eq, Structural)]
pub enum VideoCodec {
    H264,
    H265,
    AV1,
}

/// Audio codecs of the projection.
#[derive(Clone, Copy, Debug, PartialEq, Eq, Structural)]
pub enum AudioCodec {
    Opus,
    Aac,
    Flac,
    Raw,
}

/// The settings that the settings page shows and changes. The mapping label
/// opacity is held as a whole percentage.
#[derive(Clone, Copy, Debug, PartialEq, Eq, Structural)]
pub struct SettingsSnapshot {
    pub video_max_size: u32,
    pub video_max_fps: u32,
    pub video_bit_rate: u32,
    pub video_codec: VideoCodec,
    pub capture_orientation: i32,
    pub audio_enabled: bool,
    pub audio_codec: AudioCodec,
    pub audio_bit_rate: u32,
    pub always_on_top: bool,
    pub titlebar_visible: bool,
    pub mapping_opacity_percent: u32,
    pub stay_awake: bool,
    pub clipboard_sync: bool,
}

/// The index of the first occurrence of `x` in `s`.
pub open spec fn find_index(s: Seq<u32>, x: u32) -> Option<nat>
    decreases s.len(),
{
    if s.len() == 0 {
        None
    } else if s[0] == x {
        Some(0)
    } else {
        match find_index(s.drop_first(), x) {
            Some(i) => Some(i + 1),
            None => None,
        }
    }
}

/// The value after `current` in the cycle `values`; a value that is not in
/// the cycle counts as its first entry.
pub open spec fn cycle_next(current: u32, values: Seq<u32>) -> u32
    recommends
        values.len() > 0,
{
    let index = match find_index(values, current) {
        Some(i) => i,
        None => 0,
    };
    values[((index + 1) % values.len()) as int]
}

proof fn lemma_find_index(s: Seq<u32>, x: u32)
    ensures
        match find_index(s, x) {
            Some(i) => i < s.len() && s[i as int] == x && forall|j: int| 0 <= j < i ==> s[j] != x,
            None => forall|j: int| 0 <= j < s.len() ==> s[j] != x,
        },
    decreases s.len(),
{
    if s.len() > 0 {
        lemma_find_index(s.drop_first(), x);
        if s[0] != x {
            assert forall|j: int| 0 < j < s.len() implies s[j] == s.drop_first()[j - 1] by {}
        }
    }
}

fn position_of(values: &[u32], x: u32) -> (r: Option<usize>)
    ensures
        match r {
            Some(i) => i < values.len() && values@[i as int] == x && forall|j: int|
                0 <= j < i ==> values@[j] != x,
            None => forall|j: int| 0 <= j < values@.len() ==> values@[j] != x,
        },
{
    let mut index: usize = 0;
    while index < values.len()
        invariant
            index <= values@.len(),
            forall|j: int| 0 <= j < index ==> values@[j] != x,
        decreases values@.len() - index,
    {
        if values[index] == x {
            return Some(index);
        }
        index = index + 1;
    }
    None
}

/// The next value of a cycling setting.
pub fn cycle_u32(current: u32, values: &[u32]) -> (r: u32)
    requires
        values@.len() > 0,
    ensures
        r == cycle_next(current, values@),
{
    proof {
        lemma_find_index(values@, current);
    }
    let index = match position_of(values, current) {
        Some(i) => {
            proof {
                let k = find_index(values@, current)->0;
                assert(values@[k as int] == current);
                assert(values@[i as int] == current);
            }
            i
        },
        None => 0,
    };
    values[(index + 1) % values.len()]
}

/// The cycle of the maximum video size.
pub open spec fn video_sizes() -> Seq<u32> {
    seq![0u32, 360, 480, 720, 1080]
}

/// The cycle of the maximum frame rate.
pub open spec fn video_fps_steps() -> Seq<u32> {
    seq![0u32, 30, 60, 90, 120]
}

/// The cycle of the video bit rate.
pub open spec fn video_bit_rates() -> Seq<u32> {
    seq![4_000_000u32, 8_000_000, 10_000_000, 16_000_000, 20_000_000]
}

/// The cycle of the audio bit rate.
pub open spec fn audio_bit_rates() -> Seq<u32> {
    seq![64_000u32, 128_000, 256_000]
}

/// The cycle of the mapping label opacity, in percent.
pub open spec fn opacity_steps() -> Seq<u32> {
    seq![0u32, 20, 40, 60, 80, 100]
}

/// The video codec after `c`.
pub open spec fn next_video_codec(c: VideoCodec) -> VideoCodec {
    match c {
        VideoCodec::H264 => VideoCodec::H265,
        VideoCodec::H265 => VideoCodec::AV1,
        VideoCodec::AV1 => VideoCodec::H264,
    }
}

/// The audio codec after `c`.
pub open spec fn next_audio_codec(c: AudioCodec) -> AudioCodec {
    match c {
        AudioCodec::Opus => AudioCodec::Aac,
        AudioCodec::Aac => AudioCodec::Flac,
        AudioCodec::Flac => AudioCodec::Raw,
        AudioCodec::Raw => AudioCodec::Opus,
    }
}

/// The capture orientation after `o`: follow the phone, then 0, 90, 180 and
/// 270 degrees, then follow the phone again.
pub open spec fn next_orientation(o: i32) -> i32 {
    if o == -1 {
        0
    } else if o == 0 {
        90
    } else if o == 90 {
        180
    } else if o == 180 {
        270
    } else {
        -1i32
    }
}

/// The settings after pressing the button of `setting`.
pub open spec fn settings_after(c: SettingsSnapshot, setting: NativeSetting) -> SettingsSnapshot {
    match setting {
        NativeSetting::VideoMaxSize => SettingsSnapshot {
            video_max_size: cycle_next(c.video_max_size, video_sizes()),
            ..c
        },
        NativeSetting::VideoMaxFps => SettingsSnapshot {
            video_max_fps: cycle_next(c.video_max_fps, video_fps_steps()),
            ..c
        },
        NativeSetting::VideoBitRate => SettingsSnapshot {
            video_bit_rate: cycle_next(c.video_bit_rate, video_bit_rates()),
            ..c
        },
        NativeSetting::VideoCodec => SettingsSnapshot {
            video_codec: next_video_codec(c.video_codec),
            ..c
        },
        NativeSetting::CaptureOrientation => SettingsSnapshot {
            capture_orientation: next_orientation(c.capture_orientation),
            ..c
        },
        NativeSetting::AudioEnabled => SettingsSnapshot { audio_enabled: !c.audio_enabled, ..c },
        NativeSetting::AudioCodec => SettingsSnapshot {
            audio_codec: next_audio_codec(c.audio_codec),
            ..c
        },
        NativeSetting::AudioBitRate => SettingsSnapshot {
            audio_bit_rate: cycle_next(c.audio_bit_rate, audio_bit_rates()),
            ..c
        },
        NativeSetting::AlwaysOnTop => SettingsSnapshot { always_on_top: !c.always_on_top, ..c },
        NativeSetting::TitlebarVisible => SettingsSnapshot {
            titlebar_visible: !c.titlebar_visible,
            ..c
        },
        NativeSetting::MappingOpacity => SettingsSnapshot {
            mapping_opacity_percent: cycle_next(c.mapping_opacity_percent, opacity_steps()),
            ..c
        },
        NativeSetting::StayAwake => SettingsSnapshot { stay_awake: !c.stay_awake, ..c },
        NativeSetting::ClipboardSync => SettingsSnapshot { clipboard_sync: !c.clipboard_sync, ..c },
    }
}

/// The status line shown after pressing the button of `setting`.
pub open spec fn setting_message(setting: NativeSetting) -> Seq<char> {
    match setting {
        NativeSetting::VideoMaxSize => "分辨率已保存，下次投屏生效"@,
        NativeSetting::VideoMaxFps => "FPS 已保存，下次投屏生效"@,
        NativeSetting::VideoBitRate => "视频码率已保存，下次投屏生效"@,
        NativeSetting::VideoCodec => "视频编码已保存，下次投屏生效"@,
        NativeSetting::CaptureOrientation => "投屏方向已保存，下次投屏生效"@,
        NativeSetting::AudioEnabled => "音频转发已保存，下次投屏生效"@,
        NativeSetting::AudioCodec => "音频编码已保存，下次投屏生效"@,
        NativeSetting::AudioBitRate => "音频码率已保存，下次投屏生效"@,
        NativeSetting::AlwaysOnTop => "窗口置顶已立即更新"@,
        NativeSetting::TitlebarVisible => "标题栏设置已保存，下次投屏生效"@,
        NativeSetting::MappingOpacity => "按键映射透明度已立即更新"@,
        NativeSetting::StayAwake => "保持唤醒已保存，下次投屏生效"@,
        NativeSetting::ClipboardSync => "剪贴板同步已保存"@,
    }
}

/// Applies the press of the button of `setting` to the settings and
/// returns the status line to show.
pub fn apply_setting(config: &mut SettingsSnapshot, setting: NativeSetting) -> (message: &'static str)
    ensures
        *final(config) == settings_after(*old(config), setting),
        message@ == setting_message(setting),
{
    match setting {
        NativeSetting::VideoMaxSize => {
            let values: [u32; 5] = [0, 360, 480, 720, 1080];
            assert(values@ =~= video_sizes());
            config.video_max_size = cycle_u32(config.video_max_size, &values);
            "分辨率已保存，下次投屏生效"
        },
        NativeSetting::VideoMaxFps => {
            let values: [u32; 5] = [0, 30, 60, 90, 120];
            assert(values@ =~= video_fps_steps());
            config.video_max_fps = cycle_u32(config.video_max_fps, &values);
            "FPS 已保存，下次投屏生效"
        },
        NativeSetting::VideoBitRate => {
            let values: [u32; 5] = [4_000_000, 8_000_000, 10_000_000, 16_000_000, 20_000_000];
            assert(values@ =~= video_bit_rates());
            config.video_bit_rate = cycle_u32(config.video_bit_rate, &values);
            "视频码率已保存，下次投屏生效"
        },
        NativeSetting::VideoCodec => {
            config.video_codec = match config.video_codec {
                VideoCodec::H264 => VideoCodec::H265,
                VideoCodec::H265 => VideoCodec::AV1,
                VideoCodec::AV1 => VideoCodec::H264,
            };
            "视频编码已保存，下次投屏生效"
        },
        NativeSetting::CaptureOrientation => {
            let o = config.capture_orientation;
            config.capture_orientation = if o == -1 {
                0
            } else if o == 0 {
                90
            } else if o == 90 {
                180
            } else if o == 180 {
                270
            } else {
                -1
            };
            "投屏方向已保存，下次投屏生效"
        },
        NativeSetting::AudioEnabled => {
            config.audio_enabled = !config.audio_enabled;
            "音频转发已保存，下次投屏生效"
        },
        NativeSetting::AudioCodec => {
            config.audio_codec = match config.audio_codec {
                AudioCodec::Opus => AudioCodec::Aac,
                AudioCodec::Aac => AudioCodec::Flac,
                AudioCodec::Flac => AudioCodec::Raw,
                AudioCodec::Raw => AudioCodec::Opus,
            };
            "音频编码已保存，下次投屏生效"
        },
        NativeSetting::AudioBitRate => {
            let values: [u32; 3] = [64_000, 128_000, 256_000];
            assert(values@ =~= audio_bit_rates());
            config.audio_bit_rate = cycle_u32(config.audio_bit_rate, &values);
            "音频码率已保存，下次投屏生效"
        },
        NativeSetting::AlwaysOnTop => {
            config.always_on_top = !config.always_on_top;
            "窗口置顶已立即更新"
        },
        NativeSetting::TitlebarVisible => {
            config.titlebar_visible = !config.titlebar_visible;
            "标题栏设置已保存，下次投屏生效"
        },
        NativeSetting::MappingOpacity => {
            let values: [u32; 6] = [0, 20, 40, 60, 80, 100];
            assert(values@ =~= opacity_steps());
            config.mapping_opacity_percent = cycle_u32(config.mapping_opacity_percent, &values);
            "按键映射透明度已立即更新"
        },
        NativeSetting::StayAwake => {
            config.stay_awake = !config.stay_awake;
            "保持唤醒已保存，下次投屏生效"
        },
        NativeSetting::ClipboardSync => {
            config.clipboard_sync = !config.clipboard_sync;
            "剪贴板同步已保存"
        },
    }
}

/// `开启` for on, `关闭` for off.
pub open spec fn on_off_text(value: bool) -> Seq<char> {
    if value {
        "开启"@
    } else {
        "关闭"@
    }
}

/// The on/off text of a switch.
pub fn on_off(value: bool) -> (r: String)
    ensures
        r@ == on_off_text(value),
{
    if value {
        owned("开启")
    } else {
        owned("关闭")
    }
}

/// The decimal form of a signed number, as `format!("{v}")` writes it.
pub open spec fn signed_decimal(v: i32) -> Seq<char> {
    if v < 0 {
        "-"@ + decimal((-(v as int)) as nat)
    } else {
        decimal(v as nat)
    }
}

/// The upper-case name of a video codec.
pub open spec fn video_codec_name(c: VideoCodec) -> Seq<char> {
    match c {
        VideoCodec::H264 => "H264"@,
        VideoCodec::H265 => "H265"@,
        VideoCodec::AV1 => "AV1"@,
    }
}

/// The upper-case name of an audio codec.
pub open spec fn audio_codec_name(c: AudioCodec) -> Seq<char> {
    match c {
        AudioCodec::Opus => "OPUS"@,
        AudioCodec::Aac => "AAC"@,
        AudioCodec::Flac => "FLAC"@,
        AudioCodec::Raw => "RAW"@,
    }
}

/// The text that shows the value of `setting`.
pub open spec fn setting_text(setting: NativeSetting, c: SettingsSnapshot) -> Seq<char> {
    match setting {
        NativeSetting::VideoMaxSize => if c.video_max_size == 0 {
            "原始分辨率"@
        } else {
            decimal(c.video_max_size as nat) + "p"@
        },
        NativeSetting::VideoMaxFps => if c.video_max_fps == 0 {
            "不限制"@
        } else {
            decimal(c.video_max_fps as nat) + " FPS"@
        },
        NativeSetting::VideoBitRate => decimal((c.video_bit_rate / 1_000_000) as nat) + " Mbps"@,
        NativeSetting::VideoCodec => video_codec_name(c.video_codec),
        NativeSetting::CaptureOrientation => if c.capture_orientation == -1 {
            "跟随手机"@
        } else {
            signed_decimal(c.capture_orientation) + "°"@
        },
        NativeSetting::AudioEnabled => on_off_text(c.audio_enabled),
        NativeSetting::AudioCodec => audio_codec_name(c.audio_codec),
        NativeSetting::AudioBitRate => decimal((c.audio_bit_rate / 1_000) as nat) + " Kbps"@,
        NativeSetting::AlwaysOnTop => on_off_text(c.always_on_top),
        NativeSetting::TitlebarVisible => on_off_text(c.titlebar_visible),
        NativeSetting::MappingOpacity => decimal(c.mapping_opacity_percent as nat) + "%"@,
        NativeSetting::StayAwake => on_off_text(c.stay_awake),
        NativeSetting::ClipboardSync => on_off_text(c.clipboard_sync),
    }
}

fn number_then(n: u64, suffix: &str) -> (r: String)
    ensures
        r@ == decimal(n as nat) + suffix@,
{
    let mut out: Vec<char> = Vec::new();
    push_decimal(&mut out, n);
    push_str(&mut out, suffix);
    assert(out@ =~= decimal(n as nat) + suffix@);
    string_from_chars(out.as_slice())
}

/// The text that shows the value of `setting` on the settings page.
pub fn native_setting_value(setting: NativeSetting, config: &SettingsSnapshot) -> (r: String)
    ensures
        r@ == setting_text(setting, *config),
{
    match setting {
        NativeSetting::VideoMaxSize => if config.video_max_size == 0 {
            owned("原始分辨率")
        } else {
            number_then(config.video_max_size as u64, "p")
        },
        NativeSetting::VideoMaxFps => if config.video_max_fps == 0 {
            owned("不限制")
        } else {
            number_then(config.video_max_fps as u64, " FPS")
        },
        NativeSetting::VideoBitRate => number_then(
            (config.video_bit_rate / 1_000_000) as u64,
            " Mbps",
        ),
        NativeSetting::VideoCodec => match config.video_codec {
            VideoCodec::H264 => owned("H264"),
            VideoCodec::H265 => owned("H265"),
            VideoCodec::AV1 => owned("AV1"),
        },
        NativeSetting::CaptureOrientation => {
            let o = config.capture_orientation;
            if o == -1 {
                owned("跟随手机")
            } else {
                let mut out: Vec<char> = Vec::new();
                if o < 0 {
                    proof {
                        reveal_strlit("-");
                    }
                    out.push('-');
                    let magnitude: u64 = (0i64 - (o as i64)) as u64;
                    push_decimal(&mut out, magnitude);
                } else {
                    push_decimal(&mut out, o as u64);
                }
                push_str(&mut out, "°");
                assert(out@ =~= signed_decimal(o) + "°"@);
                string_from_chars(out.as_slice())
            }
        },
        NativeSetting::AudioEnabled => on_off(config.audio_enabled),
        NativeSetting::AudioCodec => match config.audio_codec {
            AudioCodec::Opus => owned("OPUS"),
            AudioCodec::Aac => owned("AAC"),
            AudioCodec::Flac => owned("FLAC"),
            AudioCodec::Raw => owned("RAW"),
        },
        NativeSetting::AudioBitRate => number_then(
            (config.audio_bit_rate / 1_000) as u64,
            " Kbps",
        ),
        NativeSetting::AlwaysOnTop => on_off(config.always_on_top),
        NativeSetting::TitlebarVisible => on_off(config.titlebar_visible),
        NativeSetting::MappingOpacity => number_then(config.mapping_opacity_percent as u64, "%"),
        NativeSetting::StayAwake => on_off(config.stay_awake),
        NativeSetting::ClipboardSync => on_off(config.clipboard_sync),
    }
}

/// In a cycle without repeated values, every value moves to the one after
/// it, and the last one back to the first.
pub proof fn law_cycle_visits_next(values: Seq<u32>, i: int)
    requires
        0 <= i < values.len(),
        forall|a: int, b: int| 0 <= a < b < values.len() ==> values[a] != values[b],
    ensures
        cycle_next(values[i], values) == values[(i + 1) % (values.len() as int)],
{
    lemma_find_index(values, values[i]);
    let k = find_index(values, values[i])->0;
    assert(values[k as int] == values[i]);
}

/// Every cycling setting stays within its cycle.
pub proof fn law_cycle_stays_in_cycle(current: u32, values: Seq<u32>)
    requires
        values.len() > 0,
    ensures
        values.contains(cycle_next(current, values)),
{
    lemma_find_index(values, current);
    let index: nat = match find_index(values, current) {
        Some(i) => i,
        None => 0,
    };
    assert(0 <= (index + 1) % values.len() < values.len());
    assert(values[((index + 1) % values.len()) as int] == cycle_next(current, values));
}

/// Pressing a switch setting twice restores every setting.
pub proof fn law_switch_twice_restores(c: SettingsSnapshot, setting: NativeSetting)
    requires
        setting is AudioEnabled || setting is AlwaysOnTop || setting is TitlebarVisible
            || setting is StayAwake || setting is ClipboardSync,
    ensures
        settings_after(settings_after(c, setting), setting) == c,
{
}

/// The video codec comes back after three presses, the audio codec after
/// four, and the capture orientation after five from any of its steps.
pub proof fn law_codec_and_orientation_cycles(c: SettingsSnapshot)
    ensures
        settings_after(
            settings_after(settings_after(c, NativeSetting::VideoCodec), NativeSetting::VideoCodec),
            NativeSetting::VideoCodec,
        ) == c,
        settings_after(
            settings_after(
                settings_after(settings_after(c, NativeSetting::AudioCodec), NativeSetting::AudioCodec),
                NativeSetting::AudioCodec,
            ),
            NativeSetting::AudioCodec,
        ) == c,
        (c.capture_orientation == -1 || c.capture_orientation == 0 || c.capture_orientation == 90
            || c.capture_orientation == 180 || c.capture_orientation == 270) ==> next_orientation(
            next_orientation(
                next_orientation(next_orientation(next_orientation(c.capture_orientation))),
            ),
        ) == c.capture_orientation,
{
}

proof fn lemma_cycle_moves(current: u32, values: Seq<u32>)
    requires
        values.len() >= 2,
        forall|a: int, b: int| 0 <= a < b < values.len() ==> values[a] != values[b],
    ensures
        cycle_next(current, values) != current,
{
    lemma_find_index(values, current);
    match find_index(values, current) {
        Some(i) => {
            let n = values.len() as int;
            let j = ((i + 1) % values.len()) as int;
            if i + 1 < n {
                assert(j == i + 1) by {
                    vstd::arithmetic::div_mod::lemma_small_mod((i + 1) as nat, n as nat);
                }
            } else {
                assert(j == 0) by {
                    vstd::arithmetic::div_mod::lemma_mod_self_0(n);
                }
            }
            if j < i {
                assert(values[j] != values[i as int]);
            } else {
                assert(values[i as int] != values[j]);
            }
        },
        None => {
            assert(values[1] != current);
        },
    }
}

proof fn lemma_cycles_have_no_repeats()
    ensures
        forall|a: int, b: int| 0 <= a < b < video_sizes().len() ==> video_sizes()[a] != video_sizes()[b],
        forall|a: int, b: int|
            0 <= a < b < video_fps_steps().len() ==> video_fps_steps()[a] != video_fps_steps()[b],
        forall|a: int, b: int|
            0 <= a < b < video_bit_rates().len() ==> video_bit_rates()[a] != video_bit_rates()[b],
        forall|a: int, b: int|
            0 <= a < b < audio_bit_rates().len() ==> audio_bit_rates()[a] != audio_bit_rates()[b],
        forall|a: int, b: int| 0 <= a < b < opacity_steps().len() ==> opacity_steps()[a] != opacity_steps()[b],
{
    assert forall|a: int, b: int| 0 <= a < b < video_sizes().len() implies video_sizes()[a]
        != video_sizes()[b] by {
        assert(video_sizes()[0] == 0 && video_sizes()[1] == 360 && video_sizes()[2] == 480
            && video_sizes()[3] == 720 && video_sizes()[4] == 1080);
    }
    assert forall|a: int, b: int| 0 <= a < b < video_fps_steps().len() implies video_fps_steps()[a]
        != video_fps_steps()[b] by {
        assert(video_fps_steps()[0] == 0 && video_fps_steps()[1] == 30 && video_fps_steps()[2] == 60
            && video_fps_steps()[3] == 90 && video_fps_steps()[4] == 120);
    }
    assert forall|a: int, b: int| 0 <= a < b < video_bit_rates().len() implies video_bit_rates()[a]
        != video_bit_rates()[b] by {
        assert(video_bit_rates()[0] == 4_000_000 && video_bit_rates()[1] == 8_000_000
            && video_bit_rates()[2] == 10_000_000 && video_bit_rates()[3] == 16_000_000
            && video_bit_rates()[4] == 20_000_000);
    }
    assert forall|a: int, b: int| 0 <= a < b < audio_bit_rates().len() implies audio_bit_rates()[a]
        != audio_bit_rates()[b] by {
        assert(audio_bit_rates()[0] == 64_000 && audio_bit_rates()[1] == 128_000
            && audio_bit_rates()[2] == 256_000);
    }
    assert forall|a: int, b: int| 0 <= a < b < opacity_steps().len() implies opacity_steps()[a]
        != opacity_steps()[b] by {
        assert(opacity_steps()[0] == 0 && opacity_steps()[1] == 20 && opacity_steps()[2] == 40
            && opacity_steps()[3] == 60 && opacity_steps()[4] == 80 && opacity_steps()[5] == 100);
    }
}

/// Every press of a setting button changes the value of that setting,
/// whatever it was before (a value outside its cycle too), and no other
/// setting.
pub proof fn law_every_press_changes_the_setting(c: SettingsSnapshot, setting: NativeSetting)
    ensures
        setting_differs(c, settings_after(c, setting), setting),
        forall|other: NativeSetting| other != setting ==> !setting_differs(
            c,
            settings_after(c, setting),
            other,
        ),
{
    lemma_cycles_have_no_repeats();
    match setting {
        NativeSetting::VideoMaxSize => lemma_cycle_moves(c.video_max_size, video_sizes()),
        NativeSetting::VideoMaxFps => lemma_cycle_moves(c.video_max_fps, video_fps_steps()),
        NativeSetting::VideoBitRate => lemma_cycle_moves(c.video_bit_rate, video_bit_rates()),
        NativeSetting::AudioBitRate => lemma_cycle_moves(c.audio_bit_rate, audio_bit_rates()),
        NativeSetting::MappingOpacity => lemma_cycle_moves(c.mapping_opacity_percent, opacity_steps()),
        _ => {},
    }
}

/// `a` and `b` hold different values of `setting`.
pub open spec fn setting_differs(a: SettingsSnapshot, b: SettingsSnapshot, setting: NativeSetting) -> bool {
    match setting {
        NativeSetting::VideoMaxSize => a.video_max_size != b.video_max_size,
        NativeSetting::VideoMaxFps => a.video_max_fps != b.video_max_fps,
        NativeSetting::VideoBitRate => a.video_bit_rate != b.video_bit_rate,
        NativeSetting::VideoCodec => a.video_codec != b.video_codec,
        NativeSetting::CaptureOrientation => a.capture_orientation != b.capture_orientation,
        NativeSetting::AudioEnabled => a.audio_enabled != b.audio_enabled,
        NativeSetting::AudioCodec => a.audio_codec != b.audio_codec,
        NativeSetting::AudioBitRate => a.audio_bit_rate != b.audio_bit_rate,
        NativeSetting::AlwaysOnTop => a.always_on_top != b.always_on_top,
        NativeSetting::TitlebarVisible => a.titlebar_visible != b.titlebar_visible,
        NativeSetting::MappingOpacity => a.mapping_opacity_percent != b.mapping_opacity_percent,
        NativeSetting::StayAwake => a.stay_awake != b.stay_awake,
        NativeSetting::ClipboardSync => a.clipboard_sync != b.clipboard_sync,
    }
}

/// A switch setting: audio forwarding, always on top, title bar, stay
/// awake or clipboard sync.
pub open spec fn is_switch(setting: NativeSetting) -> bool {
    setting is AudioEnabled || setting is AlwaysOnTop || setting is TitlebarVisible
        || setting is StayAwake || setting is ClipboardSync
}

/// Each switch shows 开启 exactly when that switch's own value is on, and
/// 关闭 otherwise; pressing a switch changes the text it shows.
pub proof fn law_switch_text_follows_its_value(c: SettingsSnapshot, setting: NativeSetting)
    ensures
        setting_text(NativeSetting::AudioEnabled, c) == "开启"@ <==> c.audio_enabled,
        setting_text(NativeSetting::AlwaysOnTop, c) == "开启"@ <==> c.always_on_top,
        setting_text(NativeSetting::TitlebarVisible, c) == "开启"@ <==> c.titlebar_visible,
        setting_text(NativeSetting::StayAwake, c) == "开启"@ <==> c.stay_awake,
        setting_text(NativeSetting::ClipboardSync, c) == "开启"@ <==> c.clipboard_sync,
        is_switch(setting) ==> (setting_text(setting, c) == "开启"@ || setting_text(setting, c) == "关闭"@),
        is_switch(setting) ==> setting_text(setting, settings_after(c, setting)) != setting_text(setting, c),
{
    reveal_strlit("开启");
    reveal_strlit("关闭");
    assert("开启"@ != "关闭"@) by {
        assert("开启"@[0] != "关闭"@[0]);
    }
}

} // verus!
