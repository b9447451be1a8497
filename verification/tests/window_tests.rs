use jx_keymapper::control::ControlChannel;
use jx_keymapper::window::{
    button_shade, cursor_for_resize_direction, device_action_hint, device_action_icon,
    device_command, inject_keycode, pick_resize_handle, set_display_power, press_titlebar, resize_cursor,
    resize_handle_priority, start_titlebar_drag, titlebar_buttons, titlebar_hint, titlebar_icon,
    toolbar_actions, tooltip_visible, ControlMessage, DeviceAction, DeviceButton, DeviceCommand, Interaction, KeyEventAction,
    Keycode, Octant, ResizeCursor, Shade, TitlebarEffect, TitlebarState, WindowButton,
};

#[test]
fn toolbar_commands() {
    assert_eq!(device_command(DeviceAction::Back), DeviceCommand::InjectKeycode(Keycode::Back));
    assert_eq!(device_command(DeviceAction::Home), DeviceCommand::InjectKeycode(Keycode::Home));
    assert_eq!(device_command(DeviceAction::AppSwitch), DeviceCommand::InjectKeycode(Keycode::AppSwitch));
    assert_eq!(device_command(DeviceAction::ScreenOff), DeviceCommand::SetDisplayPower(false));
    assert_eq!(device_command(DeviceAction::ScreenOn), DeviceCommand::SetDisplayPower(true));
    assert_eq!(device_command(DeviceAction::VolumeUp), DeviceCommand::InjectKeycode(Keycode::VolumeUp));
    assert_eq!(device_command(DeviceAction::VolumeDown), DeviceCommand::InjectKeycode(Keycode::VolumeDown));
}

#[test]
fn key_press_is_down_then_up() {
    let sent = std::cell::RefCell::new(Vec::new());
    let mut channel = ControlChannel::new(|m: ControlMessage| { sent.borrow_mut().push(m); true });
    let outcome = inject_keycode(&mut channel, Keycode::Home);
    drop(channel);
    assert!(outcome.down_sent && outcome.up_sent);
    let sent = sent.into_inner();
    assert_eq!(sent.len(), 2);
    match (sent[0], sent[1]) {
        (ControlMessage::InjectKeycode(down), ControlMessage::InjectKeycode(up)) => {
            assert_eq!(down.action, KeyEventAction::Down);
            assert_eq!(up.action, KeyEventAction::Up);
            assert!([down, up].iter().all(|e| e.keycode == Keycode::Home && e.repeat == 0 && e.metastate == 0));
        }
        other => panic!("unexpected messages {other:?}"),
    }
}

#[test]
fn refused_key_down_sends_nothing_more() {
    let calls = std::cell::Cell::new(0);
    let mut channel = ControlChannel::new(|_m: ControlMessage| { calls.set(calls.get() + 1); false });
    let outcome = inject_keycode(&mut channel, Keycode::Back);
    assert!(!outcome.down_sent && !outcome.up_sent);
    assert_eq!(calls.get(), 1);
}

#[test]
fn display_power_message() {
    let sent = std::cell::RefCell::new(Vec::new());
    let mut channel = ControlChannel::new(|m: ControlMessage| { sent.borrow_mut().push(m); true });
    assert!(set_display_power(&mut channel, false));
    drop(channel);
    assert_eq!(sent.into_inner(), vec![ControlMessage::SetDisplayPower(false)]);
    let button = DeviceButton(DeviceAction::ScreenOn);
    assert_eq!(device_command(button.0), DeviceCommand::SetDisplayPower(true));
}

#[test]
fn toolbar_layout() {
    let actions = toolbar_actions();
    assert_eq!(actions.len(), 7);
    assert_eq!(actions[0], DeviceAction::ScreenOff);
    assert_eq!(actions[6], DeviceAction::AppSwitch);
    assert_eq!(device_action_hint(DeviceAction::VolumeDown), "音量-");
    assert_eq!(device_action_icon(DeviceAction::ScreenOn), "icons/bulb-fill.png");
    assert_eq!(titlebar_buttons(), vec![WindowButton::Pushpin, WindowButton::Minimize, WindowButton::Maximize, WindowButton::Close]);
    assert_eq!(titlebar_hint(WindowButton::Pushpin), Some("置顶"));
    assert_eq!(titlebar_hint(WindowButton::Device), None);
    assert_eq!(titlebar_icon(WindowButton::Minimize), Some("icons/minus.png"));
}

#[test]
fn button_shades() {
    assert_eq!(button_shade(WindowButton::Close, Interaction::Pressed, false), Shade::ClosePressed);
    assert_eq!(button_shade(WindowButton::Close, Interaction::Hovered, true), Shade::CloseHovered);
    assert_eq!(button_shade(WindowButton::Close, Interaction::Idle, true), Shade::Normal);
    assert_eq!(button_shade(WindowButton::Pushpin, Interaction::Idle, true), Shade::PinActive);
    assert_eq!(button_shade(WindowButton::Pushpin, Interaction::Idle, false), Shade::Normal);
    assert_eq!(button_shade(WindowButton::Pushpin, Interaction::Pressed, true), Shade::Pressed);
    assert_eq!(button_shade(WindowButton::Device, Interaction::Hovered, false), Shade::Hovered);
    assert!(tooltip_visible(Interaction::Hovered));
    assert!(!tooltip_visible(Interaction::Pressed));
}

#[test]
fn titlebar_drag_only_without_button_press() {
    assert!(start_titlebar_drag(&[Interaction::Idle, Interaction::Hovered], &[Interaction::Pressed]));
    assert!(!start_titlebar_drag(&[Interaction::Pressed], &[Interaction::Pressed]));
    assert!(!start_titlebar_drag(&[], &[Interaction::Hovered]));
}

#[test]
fn titlebar_buttons_toggle() {
    let mut s = TitlebarState { maximized: false, always_on_top: false };
    assert_eq!(press_titlebar(&mut s, WindowButton::Maximize), TitlebarEffect::SetMaximized(true));
    assert_eq!(press_titlebar(&mut s, WindowButton::Maximize), TitlebarEffect::SetMaximized(false));
    assert_eq!(press_titlebar(&mut s, WindowButton::Pushpin), TitlebarEffect::SetAlwaysOnTop(true));
    assert!(s.always_on_top && !s.maximized);
    assert_eq!(press_titlebar(&mut s, WindowButton::Minimize), TitlebarEffect::Minimize);
    assert_eq!(press_titlebar(&mut s, WindowButton::Close), TitlebarEffect::CloseProjection);
    assert_eq!(press_titlebar(&mut s, WindowButton::Device), TitlebarEffect::Nothing);
}

#[test]
fn resize_handles() {
    assert_eq!(resize_handle_priority(Octant::NorthEast), 1);
    assert_eq!(resize_handle_priority(Octant::West), 0);
    assert_eq!(cursor_for_resize_direction(Octant::SouthWest), ResizeCursor::SwResize);
    let handles = [
        (Octant::North, Interaction::Hovered),
        (Octant::NorthEast, Interaction::Hovered),
        (Octant::East, Interaction::Pressed),
        (Octant::NorthWest, Interaction::Idle),
    ];
    assert_eq!(pick_resize_handle(&handles, true), Some(Octant::NorthEast));
    assert_eq!(pick_resize_handle(&handles, false), Some(Octant::East));
    assert_eq!(resize_cursor(&handles), ResizeCursor::NeResize);
    let ties = [(Octant::North, Interaction::Pressed), (Octant::South, Interaction::Pressed)];
    assert_eq!(pick_resize_handle(&ties, false), Some(Octant::South));
    assert_eq!(resize_cursor(&[(Octant::North, Interaction::Idle)]), ResizeCursor::Default);
}

#[test]
fn accepted_down_and_refused_up() {
    let sent = std::cell::RefCell::new(Vec::new());
    let mut channel = ControlChannel::new(|m: ControlMessage| {
        sent.borrow_mut().push(m);
        sent.borrow().len() == 1
    });
    let outcome = inject_keycode(&mut channel, Keycode::VolumeUp);
    drop(channel);
    assert!(outcome.down_sent && !outcome.up_sent);
    assert_eq!(sent.into_inner().len(), 2);
}

#[test]
fn refused_display_power_is_reported_and_not_repeated() {
    let calls = std::cell::Cell::new(0);
    let mut channel = ControlChannel::new(|_m: ControlMessage| { calls.set(calls.get() + 1); false });
    assert!(!set_display_power(&mut channel, true));
    assert_eq!(calls.get(), 1);
}
