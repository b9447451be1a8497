use jx_keymapper::dashboard::{
    action_button_shade, control_shade, page_shown, dashboard_texts, navigate, navigation_shade,
    DashboardShade, DeviceButtons, DeviceInfo, DeviceResult, DeviceState, DeviceWork, NativePage,
    ResultEffect,
};
use jx_keymapper::window::Interaction;

fn device(id: &str, status: &str) -> DeviceInfo {
    DeviceInfo { id: id.to_string(), status: status.to_string() }
}

#[test]
fn refresh_and_start() {
    let mut s = DeviceState::default();
    let w = s.press_buttons(DeviceButtons { refresh: true, restart_adb: false, start: false });
    assert!(matches!(w.as_slice(), [DeviceWork::ListDevices]));
    assert!(s.busy);
    assert_eq!(s.status, "正在刷新设备…");
    let w = s.press_buttons(DeviceButtons { refresh: true, restart_adb: true, start: true });
    assert!(w.is_empty());
    s.receive(DeviceResult::Devices(Ok(vec![device("ABC", "device")])));
    assert!(!s.busy);
    assert_eq!(s.status, "ADB 已连接：ABC");
    let w = s.press_buttons(DeviceButtons { refresh: false, restart_adb: false, start: true });
    match w.as_slice() {
        [DeviceWork::StartProjection(id)] => assert_eq!(id, "ABC"),
        other => panic!("unexpected work {other:?}"),
    }
    assert_eq!(s.status, "正在启动投屏…");
}

#[test]
fn start_without_device() {
    let mut s = DeviceState::default();
    let w = s.press_buttons(DeviceButtons { refresh: false, restart_adb: true, start: true });
    assert!(matches!(w.as_slice(), [DeviceWork::RestartAdb]));
    assert_eq!(s.status, "没有可投屏的 USB ADB 设备");
    assert!(s.busy);
}

#[test]
fn results_update_status() {
    let mut s = DeviceState::default();
    s.receive(DeviceResult::Devices(Ok(vec![])));
    assert_eq!(s.status, "未检测到已授权的 USB ADB 设备");
    s.receive(DeviceResult::Devices(Err("adb missing".to_string())));
    assert_eq!(s.status, "ADB 错误：adb missing");
    assert!(matches!(s.receive(DeviceResult::Projection(Ok(()))), ResultEffect::ShowProjection));
    assert_eq!(s.status, "投屏已启动");
    s.receive(DeviceResult::Projection(Err("timeout".to_string())));
    assert_eq!(s.status, "投屏失败：timeout");
    match s.receive(DeviceResult::MappingActivated { file: "a.json".to_string(), result: Ok(()) }) {
        ResultEffect::ActivateMapping(f) => assert_eq!(f, "a.json"),
        other => panic!("unexpected effect {other:?}"),
    }
    assert_eq!(s.status, "映射已启用：a.json");
    assert!(matches!(
        s.receive(DeviceResult::MappingActivated { file: "a.json".to_string(), result: Err("bad".to_string()) }),
        ResultEffect::ShowStatus
    ));
    assert_eq!(s.status, "映射启用失败：bad");
}

#[test]
fn dashboard_texts_follow_state() {
    let s = DeviceState::default();
    let t = dashboard_texts(&s);
    assert_eq!((t.identity.as_str(), t.device_status.as_str(), t.footer.as_str()), ("没有数据", "未连接", "●  ADB 就绪"));
    let mut s = DeviceState::default();
    s.receive(DeviceResult::Devices(Ok(vec![device("X1", "unauthorized")])));
    let t = dashboard_texts(&s);
    assert_eq!(t.identity, "X1");
    assert_eq!(t.device_status, "●  未授权");
    assert_eq!(t.footer, "ADB 已连接：X1");
    s.receive(DeviceResult::Devices(Ok(vec![device("X2", "device")])));
    assert_eq!(dashboard_texts(&s).device_status, "●  已连接");
}

#[test]
fn navigation_and_shades() {
    assert_eq!(navigate(NativePage::Device, &[]), NativePage::Device);
    assert_eq!(navigate(NativePage::Device, &[NativePage::Settings, NativePage::Mapping]), NativePage::Settings);
    assert_eq!(navigation_shade(NativePage::Mapping, NativePage::Mapping, Interaction::Hovered), DashboardShade::NavActive);
    assert_eq!(navigation_shade(NativePage::Mapping, NativePage::Device, Interaction::Idle), DashboardShade::NavIdle);
    assert_eq!(action_button_shade(Interaction::Pressed), DashboardShade::AccentPressed);
    assert_eq!(control_shade(Interaction::Idle), DashboardShade::Panel);
}

#[test]
fn exactly_one_page_is_shown() {
    for current in [NativePage::Device, NativePage::Mapping, NativePage::Settings] {
        let shown = [NativePage::Device, NativePage::Mapping, NativePage::Settings]
            .iter()
            .filter(|page| page_shown(**page, current))
            .count();
        assert_eq!(shown, 1);
        assert!(page_shown(current, current));
    }
}
