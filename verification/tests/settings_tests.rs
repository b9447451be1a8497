use jx_keymapper::settings::{
    apply_setting, cycle_u32, native_setting_value, on_off, AudioCodec, NativeSetting,
    SettingsSnapshot, VideoCodec,
};

fn config() -> SettingsSnapshot {
    SettingsSnapshot {
        video_max_size: 0,
        video_max_fps: 60,
        video_bit_rate: 8_000_000,
        video_codec: VideoCodec::H264,
        capture_orientation: -1,
        audio_enabled: true,
        audio_codec: AudioCodec::Opus,
        audio_bit_rate: 128_000,
        always_on_top: false,
        titlebar_visible: true,
        mapping_opacity_percent: 60,
        stay_awake: false,
        clipboard_sync: true,
    }
}

#[test]
fn cycle_moves_to_next_and_wraps() {
    assert_eq!(cycle_u32(0, &[0, 360, 480, 720, 1080]), 360);
    assert_eq!(cycle_u32(1080, &[0, 360, 480, 720, 1080]), 0);
    assert_eq!(cycle_u32(555, &[0, 360, 480, 720, 1080]), 360);
    assert_eq!(cycle_u32(5, &[5]), 5);
    assert_eq!(cycle_u32(2, &[1, 2, 2, 3]), 2);
}

#[test]
fn cycling_settings() {
    let mut c = config();
    assert_eq!(apply_setting(&mut c, NativeSetting::VideoMaxSize), "分辨率已保存，下次投屏生效");
    assert_eq!(c.video_max_size, 360);
    assert_eq!(apply_setting(&mut c, NativeSetting::VideoMaxFps), "FPS 已保存，下次投屏生效");
    assert_eq!(c.video_max_fps, 90);
    apply_setting(&mut c, NativeSetting::VideoBitRate);
    assert_eq!(c.video_bit_rate, 10_000_000);
    apply_setting(&mut c, NativeSetting::AudioBitRate);
    assert_eq!(c.audio_bit_rate, 256_000);
    apply_setting(&mut c, NativeSetting::AudioBitRate);
    assert_eq!(c.audio_bit_rate, 64_000);
    assert_eq!(apply_setting(&mut c, NativeSetting::MappingOpacity), "按键映射透明度已立即更新");
    assert_eq!(c.mapping_opacity_percent, 80);
}

#[test]
fn codecs_and_orientation_cycle() {
    let mut c = config();
    apply_setting(&mut c, NativeSetting::VideoCodec);
    assert_eq!(c.video_codec, VideoCodec::H265);
    apply_setting(&mut c, NativeSetting::VideoCodec);
    assert_eq!(c.video_codec, VideoCodec::AV1);
    apply_setting(&mut c, NativeSetting::VideoCodec);
    assert_eq!(c.video_codec, VideoCodec::H264);
    for expected in [AudioCodec::Aac, AudioCodec::Flac, AudioCodec::Raw, AudioCodec::Opus] {
        apply_setting(&mut c, NativeSetting::AudioCodec);
        assert_eq!(c.audio_codec, expected);
    }
    for expected in [0, 90, 180, 270, -1] {
        assert_eq!(apply_setting(&mut c, NativeSetting::CaptureOrientation), "投屏方向已保存，下次投屏生效");
        assert_eq!(c.capture_orientation, expected);
    }
    c.capture_orientation = 45;
    apply_setting(&mut c, NativeSetting::CaptureOrientation);
    assert_eq!(c.capture_orientation, -1);
}

#[test]
fn switches_toggle_and_touch_nothing_else() {
    let mut c = config();
    assert_eq!(apply_setting(&mut c, NativeSetting::AlwaysOnTop), "窗口置顶已立即更新");
    assert!(c.always_on_top);
    apply_setting(&mut c, NativeSetting::AlwaysOnTop);
    assert_eq!(c, config());
    assert_eq!(apply_setting(&mut c, NativeSetting::ClipboardSync), "剪贴板同步已保存");
    assert!(!c.clipboard_sync);
    apply_setting(&mut c, NativeSetting::AudioEnabled);
    apply_setting(&mut c, NativeSetting::TitlebarVisible);
    apply_setting(&mut c, NativeSetting::StayAwake);
    assert!(!c.audio_enabled && !c.titlebar_visible && c.stay_awake);
}

#[test]
fn setting_texts() {
    let mut c = config();
    assert_eq!(native_setting_value(NativeSetting::VideoMaxSize, &c), "原始分辨率");
    c.video_max_size = 1080;
    assert_eq!(native_setting_value(NativeSetting::VideoMaxSize, &c), "1080p");
    assert_eq!(native_setting_value(NativeSetting::VideoMaxFps, &c), "60 FPS");
    c.video_max_fps = 0;
    assert_eq!(native_setting_value(NativeSetting::VideoMaxFps, &c), "不限制");
    assert_eq!(native_setting_value(NativeSetting::VideoBitRate, &c), "8 Mbps");
    c.video_bit_rate = 999_999;
    assert_eq!(native_setting_value(NativeSetting::VideoBitRate, &c), "0 Mbps");
    assert_eq!(native_setting_value(NativeSetting::VideoCodec, &c), "H264");
    c.video_codec = VideoCodec::AV1;
    assert_eq!(native_setting_value(NativeSetting::VideoCodec, &c), "AV1");
    assert_eq!(native_setting_value(NativeSetting::CaptureOrientation, &c), "跟随手机");
    c.capture_orientation = 270;
    assert_eq!(native_setting_value(NativeSetting::CaptureOrientation, &c), "270°");
    c.capture_orientation = -90;
    assert_eq!(native_setting_value(NativeSetting::CaptureOrientation, &c), "-90°");
    assert_eq!(native_setting_value(NativeSetting::AudioEnabled, &c), "开启");
    assert_eq!(native_setting_value(NativeSetting::AudioCodec, &c), "OPUS");
    assert_eq!(native_setting_value(NativeSetting::AudioBitRate, &c), "128 Kbps");
    assert_eq!(native_setting_value(NativeSetting::AlwaysOnTop, &c), "关闭");
    assert_eq!(native_setting_value(NativeSetting::MappingOpacity, &c), "60%");
    assert_eq!(on_off(true), "开启");
    assert_eq!(on_off(false), "关闭");
}

#[test]
fn every_press_changes_the_pressed_setting_only() {
    let all = [
        NativeSetting::VideoMaxSize,
        NativeSetting::VideoMaxFps,
        NativeSetting::VideoBitRate,
        NativeSetting::VideoCodec,
        NativeSetting::CaptureOrientation,
        NativeSetting::AudioEnabled,
        NativeSetting::AudioCodec,
        NativeSetting::AudioBitRate,
        NativeSetting::AlwaysOnTop,
        NativeSetting::TitlebarVisible,
        NativeSetting::MappingOpacity,
        NativeSetting::StayAwake,
        NativeSetting::ClipboardSync,
    ];
    for setting in all {
        let before = config();
        let mut after = config();
        apply_setting(&mut after, setting);
        assert_ne!(after, before, "{setting:?}");
        for other in all {
            if other != setting {
                assert_eq!(native_setting_value(other, &after), native_setting_value(other, &before));
            }
        }
    }
    let mut odd = config();
    odd.video_max_fps = 45;
    apply_setting(&mut odd, NativeSetting::VideoMaxFps);
    assert_eq!(odd.video_max_fps, 30);
}
