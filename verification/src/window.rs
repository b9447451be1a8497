//! Decisions of the projection window: the Android toolbar's device
//! actions, the title bar buttons, their hover/press shading, and the
//! resize handles on the window's edges and corners.

use vstd::prelude::*;
use crate::control::ControlChannel;

verus! {

/// An Android control on the toolbar beside the projection.
#[derive(Clone, Copy, Debug, PartialEq, Eq, Structural)]
pub enum DeviceAction {
    Back,
    Home,
    AppSwitch,
    ScreenOff,
    ScreenOn,
    VolumeUp,
    VolumeDown,
}

/// The Android key codes that the toolbar sends.
#[derive(Clone, Copy, Debug, PartialEq, Eq, Structural)]
pub enum Keycode {
    Back,
    Home,
    AppSwitch,
    VolumeUp,
    VolumeDown,
}

/// What the device is told when a toolbar button is pressed.
#[derive(Clone, Copy, Debug, PartialEq, Eq, Structural)]
pub enum DeviceCommand {
    /// Press and release a key.
    InjectKeycode(Keycode),
    /// Turn the display on (`true`) or off (`false`).
    SetDisplayPower(bool),
}

/// The command of each toolbar action.
pub open spec fn command_of(action: DeviceAction) -> DeviceCommand {
    match action {
        DeviceAction::Back => DeviceCommand::InjectKeycode(Keycode::Back),
        DeviceAction::Home => DeviceCommand::InjectKeycode(Keycode::Home),
        DeviceAction::AppSwitch => DeviceCommand::InjectKeycode(Keycode::AppSwitch),
        DeviceAction::ScreenOff => DeviceCommand::SetDisplayPower(false),
        DeviceAction::ScreenOn => DeviceCommand::SetDisplayPower(true),
        DeviceAction::VolumeUp => DeviceCommand::InjectKeycode(Keycode::VolumeUp),
        DeviceAction::VolumeDown => DeviceCommand::InjectKeycode(Keycode::VolumeDown),
    }
}

/// The command sent for a pressed toolbar button.
pub fn device_command(action: DeviceAction) -> (c: DeviceCommand)
    ensures
        c == command_of(action),
{
    match action {
        DeviceAction::Back => DeviceCommand::InjectKeycode(Keycode::Back),
        DeviceAction::Home => DeviceCommand::InjectKeycode(Keycode::Home),
        DeviceAction::AppSwitch => DeviceCommand::InjectKeycode(Keycode::AppSwitch),
        DeviceAction::ScreenOff => DeviceCommand::SetDisplayPower(false),
        DeviceAction::ScreenOn => DeviceCommand::SetDisplayPower(true),
        DeviceAction::VolumeUp => DeviceCommand::InjectKeycode(Keycode::VolumeUp),
        DeviceAction::VolumeDown => DeviceCommand::InjectKeycode(Keycode::VolumeDown),
    }
}

/// Direction of a key event.
#[derive(Clone, Copy, Debug, PartialEq, Eq, Structural)]
pub enum KeyEventAction {
    Down,
    Up,
}

/// A key event for the device: no repeat and no meta keys.
#[derive(Clone, Copy, Debug, PartialEq, Eq, Structural)]
pub struct KeyEvent {
    pub action: KeyEventAction,
    pub keycode: Keycode,
    pub repeat: u32,
    pub metastate: u32,
}

/// A control message for the device.
#[derive(Clone, Copy, Debug, PartialEq, Eq, Structural)]
pub enum ControlMessage {
    InjectKeycode(KeyEvent),
    SetDisplayPower(bool),
}

/// The message that presses (`Down`) or releases (`Up`) `keycode`.
pub open spec fn key_message(action: KeyEventAction, keycode: Keycode) -> ControlMessage {
    ControlMessage::InjectKeycode(KeyEvent { action, keycode, repeat: 0, metastate: 0 })
}

/// Which halves of a key press reached the device channel.
#[derive(Clone, Copy, Debug, PartialEq, Eq, Structural)]
pub struct KeyPressOutcome {
    pub down_sent: bool,
    pub up_sent: bool,
}

/// The messages that a key press hands to the channel, with their answers:
/// the key goes down, and only when that was accepted does it go up.
pub open spec fn key_press_log(keycode: Keycode, r: KeyPressOutcome) -> Seq<(ControlMessage, bool)> {
    if r.down_sent {
        seq![(key_message(KeyEventAction::Down, keycode), true), (key_message(KeyEventAction::Up, keycode), r.up_sent)]
    } else {
        seq![(key_message(KeyEventAction::Down, keycode), false)]
    }
}

/// Sends a key press on the device's control channel: the key goes down,
/// then up; when the down event is refused, the up event is not sent.
/// Nothing else is sent.
pub fn inject_keycode<F: Fn(ControlMessage) -> bool>(
    channel: &mut ControlChannel<F>,
    keycode: Keycode,
) -> (r: KeyPressOutcome)
    ensures
        final(channel).log() == old(channel).log() + key_press_log(keycode, r),
        !r.down_sent ==> !r.up_sent,
{
    let down = ControlMessage::InjectKeycode(
        KeyEvent { action: KeyEventAction::Down, keycode, repeat: 0, metastate: 0 },
    );
    if !channel.send(down) {
        return KeyPressOutcome { down_sent: false, up_sent: false };
    }
    let up = ControlMessage::InjectKeycode(
        KeyEvent { action: KeyEventAction::Up, keycode, repeat: 0, metastate: 0 },
    );
    let up_sent = channel.send(up);
    KeyPressOutcome { down_sent: true, up_sent }
}

/// Turns the device's display on (`mode`) or off: exactly one message is
/// handed to the channel; whether it was accepted is returned.
pub fn set_display_power<F: Fn(ControlMessage) -> bool>(channel: &mut ControlChannel<F>, mode: bool) -> (sent: bool)
    ensures
        final(channel).log() == old(channel).log().push((ControlMessage::SetDisplayPower(mode), sent)),
{
    channel.send(ControlMessage::SetDisplayPower(mode))
}

/// A toolbar button and the action it performs.
#[derive(Clone, Copy, Debug, PartialEq, Eq, Structural)]
pub struct DeviceButton(pub DeviceAction);

/// The toolbar's buttons, top to bottom.
pub open spec fn toolbar_order() -> Seq<DeviceAction> {
    seq![
        DeviceAction::ScreenOff,
        DeviceAction::ScreenOn,
        DeviceAction::VolumeDown,
        DeviceAction::VolumeUp,
        DeviceAction::Back,
        DeviceAction::Home,
        DeviceAction::AppSwitch,
    ]
}

/// The toolbar's buttons, top to bottom.
pub fn toolbar_actions() -> (r: Vec<DeviceAction>)
    ensures
        r@ == toolbar_order(),
{
    let r = vec![
        DeviceAction::ScreenOff,
        DeviceAction::ScreenOn,
        DeviceAction::VolumeDown,
        DeviceAction::VolumeUp,
        DeviceAction::Back,
        DeviceAction::Home,
        DeviceAction::AppSwitch,
    ];
    assert(r@ =~= toolbar_order());
    r
}

/// The tooltip of a toolbar button.
pub fn device_action_hint(action: DeviceAction) -> (r: &'static str)
    ensures
        r@ == match action {
            DeviceAction::ScreenOff => "息屏"@,
            DeviceAction::ScreenOn => "亮屏"@,
            DeviceAction::VolumeDown => "音量-"@,
            DeviceAction::VolumeUp => "音量+"@,
            DeviceAction::Back => "返回"@,
            DeviceAction::Home => "主页"@,
            DeviceAction::AppSwitch => "多任务"@,
        },
{
    match action {
        DeviceAction::ScreenOff => "息屏",
        DeviceAction::ScreenOn => "亮屏",
        DeviceAction::VolumeDown => "音量-",
        DeviceAction::VolumeUp => "音量+",
        DeviceAction::Back => "返回",
        DeviceAction::Home => "主页",
        DeviceAction::AppSwitch => "多任务",
    }
}

/// The icon asset of a toolbar button.
pub fn device_action_icon(action: DeviceAction) -> (r: &'static str)
    ensures
        r@ == match action {
            DeviceAction::ScreenOff => "icons/bulb.png"@,
            DeviceAction::ScreenOn => "icons/bulb-fill.png"@,
            DeviceAction::VolumeDown => "icons/down.png"@,
            DeviceAction::VolumeUp => "icons/up.png"@,
            DeviceAction::Back => "icons/enter.png"@,
            DeviceAction::Home => "icons/border.png"@,
            DeviceAction::AppSwitch => "icons/menu.png"@,
        },
{
    match action {
        DeviceAction::ScreenOff => "icons/bulb.png",
        DeviceAction::ScreenOn => "icons/bulb-fill.png",
        DeviceAction::VolumeDown => "icons/down.png",
        DeviceAction::VolumeUp => "icons/up.png",
        DeviceAction::Back => "icons/enter.png",
        DeviceAction::Home => "icons/border.png",
        DeviceAction::AppSwitch => "icons/menu.png",
    }
}

/// A button's pointer state.
#[derive(Clone, Copy, Debug, PartialEq, Eq, Structural)]
pub enum Interaction {
    Pressed,
    Hovered,
    /// Neither pressed nor hovered.
    Idle,
}

/// The buttons of the projection window.
#[derive(Clone, Copy, Debug, PartialEq, Eq, Structural)]
pub enum WindowButton {
    Pushpin,
    Minimize,
    Maximize,
    Close,
    Device,
}

/// The title bar's buttons, left to right.
pub open spec fn titlebar_order() -> Seq<WindowButton> {
    seq![WindowButton::Pushpin, WindowButton::Minimize, WindowButton::Maximize, WindowButton::Close]
}

/// The title bar's buttons, left to right.
pub fn titlebar_buttons() -> (r: Vec<WindowButton>)
    ensures
        r@ == titlebar_order(),
{
    let r = vec![
        WindowButton::Pushpin,
        WindowButton::Minimize,
        WindowButton::Maximize,
        WindowButton::Close,
    ];
    assert(r@ =~= titlebar_order());
    r
}

/// The tooltip of a title bar button (`None` for a toolbar button).
pub fn titlebar_hint(button: WindowButton) -> (r: Option<&'static str>)
    ensures
        match button {
            WindowButton::Pushpin => r matches Some(h) && h@ == "置顶"@,
            WindowButton::Minimize => r matches Some(h) && h@ == "最小化"@,
            WindowButton::Maximize => r matches Some(h) && h@ == "最大化"@,
            WindowButton::Close => r matches Some(h) && h@ == "关闭"@,
            WindowButton::Device => r is None,
        },
{
    match button {
        WindowButton::Pushpin => Some("置顶"),
        WindowButton::Minimize => Some("最小化"),
        WindowButton::Maximize => Some("最大化"),
        WindowButton::Close => Some("关闭"),
        WindowButton::Device => None,
    }
}

/// The icon asset of a title bar button (`None` for a toolbar button).
pub fn titlebar_icon(button: WindowButton) -> (r: Option<&'static str>)
    ensures
        match button {
            WindowButton::Pushpin => r matches Some(h) && h@ == "icons/pushpin.png"@,
            WindowButton::Minimize => r matches Some(h) && h@ == "icons/minus.png"@,
            WindowButton::Maximize => r matches Some(h) && h@ == "icons/border.png"@,
            WindowButton::Close => r matches Some(h) && h@ == "icons/close.png"@,
            WindowButton::Device => r is None,
        },
{
    match button {
        WindowButton::Pushpin => Some("icons/pushpin.png"),
        WindowButton::Minimize => Some("icons/minus.png"),
        WindowButton::Maximize => Some("icons/border.png"),
        WindowButton::Close => Some("icons/close.png"),
        WindowButton::Device => None,
    }
}

/// The background shades of the window's buttons.
#[derive(Clone, Copy, Debug, PartialEq, Eq, Structural)]
pub enum Shade {
    Normal,
    Hovered,
    Pressed,
    CloseHovered,
    ClosePressed,
    PinActive,
}

/// The shade of a button in a pointer state; `pinned` is whether the window
/// stays on top, which the pushpin shows while it is idle.
pub open spec fn shade_of(button: WindowButton, interaction: Interaction, pinned: bool) -> Shade {
    match interaction {
        Interaction::Pressed => if button == WindowButton::Close {
            Shade::ClosePressed
        } else {
            Shade::Pressed
        },
        Interaction::Hovered => if button == WindowButton::Close {
            Shade::CloseHovered
        } else {
            Shade::Hovered
        },
        Interaction::Idle => if button == WindowButton::Pushpin && pinned {
            Shade::PinActive
        } else {
            Shade::Normal
        },
    }
}

/// The shade of a button whose pointer state changed (and of the idle
/// pushpin when the window level changed).
pub fn button_shade(button: WindowButton, interaction: Interaction, pinned: bool) -> (s: Shade)
    ensures
        s == shade_of(button, interaction, pinned),
{
    match interaction {
        Interaction::Pressed => match button {
            WindowButton::Close => Shade::ClosePressed,
            _ => Shade::Pressed,
        },
        Interaction::Hovered => match button {
            WindowButton::Close => Shade::CloseHovered,
            _ => Shade::Hovered,
        },
        Interaction::Idle => match button {
            WindowButton::Pushpin => if pinned {
                Shade::PinActive
            } else {
                Shade::Normal
            },
            _ => Shade::Normal,
        },
    }
}

/// Whether a tooltip is shown: only while its button is hovered.
pub fn tooltip_visible(interaction: Interaction) -> (r: bool)
    ensures
        r == (interaction == Interaction::Hovered),
{
    match interaction {
        Interaction::Hovered => true,
        _ => false,
    }
}

/// Some entry of `states` is `Pressed`.
pub open spec fn any_pressed(states: Seq<Interaction>) -> bool {
    exists|i: int| 0 <= i < states.len() && states[i] == Interaction::Pressed
}

fn has_pressed(states: &[Interaction]) -> (r: bool)
    ensures
        r == any_pressed(states@),
{
    let mut i: usize = 0;
    while i < states.len()
        invariant
            i <= states@.len(),
            forall|j: int| 0 <= j < i ==> states@[j] != Interaction::Pressed,
        decreases states@.len() - i,
    {
        if states[i] == Interaction::Pressed {
            return true;
        }
        i = i + 1;
    }
    false
}

/// Whether to start moving the window: the title bar was just pressed while
/// none of the window's buttons is pressed. `buttons` are the states of all
/// buttons; `titlebar_changes` the title bar's changed states.
pub fn start_titlebar_drag(buttons: &[Interaction], titlebar_changes: &[Interaction]) -> (r: bool)
    ensures
        r == (!any_pressed(buttons@) && any_pressed(titlebar_changes@)),
{
    !has_pressed(buttons) && has_pressed(titlebar_changes)
}

/// The state that the title bar buttons change.
#[derive(Clone, Copy, Debug, PartialEq, Eq, Structural)]
pub struct TitlebarState {
    pub maximized: bool,
    pub always_on_top: bool,
}

/// What the window does after a title bar button is pressed.
#[derive(Clone, Copy, Debug, PartialEq, Eq, Structural)]
pub enum TitlebarEffect {
    Minimize,
    /// Maximize (`true`) or restore (`false`).
    SetMaximized(bool),
    /// Keep the window on top (`true`) or at the normal level (`false`),
    /// and remember the choice in the configuration.
    SetAlwaysOnTop(bool),
    /// Shut down the projection of the main device, if there is one.
    CloseProjection,
    /// Nothing happens.
    Nothing,
}

/// The state and effect after pressing `button` on the title bar.
pub open spec fn titlebar_step(s: TitlebarState, button: WindowButton) -> (TitlebarState, TitlebarEffect) {
    match button {
        WindowButton::Minimize => (s, TitlebarEffect::Minimize),
        WindowButton::Maximize => (
            TitlebarState { maximized: !s.maximized, ..s },
            TitlebarEffect::SetMaximized(!s.maximized),
        ),
        WindowButton::Pushpin => (
            TitlebarState { always_on_top: !s.always_on_top, ..s },
            TitlebarEffect::SetAlwaysOnTop(!s.always_on_top),
        ),
        WindowButton::Close => (s, TitlebarEffect::CloseProjection),
        WindowButton::Device => (s, TitlebarEffect::Nothing),
    }
}

/// Handles a press of a title bar button.
pub fn press_titlebar(state: &mut TitlebarState, button: WindowButton) -> (e: TitlebarEffect)
    ensures
        (*final(state), e) == titlebar_step(*old(state), button),
{
    match button {
        WindowButton::Minimize => TitlebarEffect::Minimize,
        WindowButton::Maximize => {
            state.maximized = !state.maximized;
            TitlebarEffect::SetMaximized(state.maximized)
        },
        WindowButton::Pushpin => {
            state.always_on_top = !state.always_on_top;
            TitlebarEffect::SetAlwaysOnTop(state.always_on_top)
        },
        WindowButton::Close => TitlebarEffect::CloseProjection,
        WindowButton::Device => TitlebarEffect::Nothing,
    }
}

/// Pressing maximize, or the pushpin, twice brings the window back to
/// where it was.
pub proof fn law_titlebar_toggles_undo(s: TitlebarState, button: WindowButton)
    requires
        button == WindowButton::Maximize || button == WindowButton::Pushpin,
    ensures
        titlebar_step(titlebar_step(s, button).0, button).0 == s,
{
}

/// The eight directions of the resize handles.
#[derive(Clone, Copy, Debug, PartialEq, Eq, Structural)]
pub enum Octant {
    North,
    NorthEast,
    East,
    SouthEast,
    South,
    SouthWest,
    West,
    NorthWest,
}

/// Mouse cursors of the projection window.
#[derive(Clone, Copy, Debug, PartialEq, Eq, Structural)]
pub enum ResizeCursor {
    Default,
    NResize,
    NeResize,
    EResize,
    SeResize,
    SResize,
    SwResize,
    WResize,
    NwResize,
}

/// The resize cursor of a direction.
pub open spec fn cursor_of(direction: Octant) -> ResizeCursor {
    match direction {
        Octant::North => ResizeCursor::NResize,
        Octant::NorthEast => ResizeCursor::NeResize,
        Octant::East => ResizeCursor::EResize,
        Octant::SouthEast => ResizeCursor::SeResize,
        Octant::South => ResizeCursor::SResize,
        Octant::SouthWest => ResizeCursor::SwResize,
        Octant::West => ResizeCursor::WResize,
        Octant::NorthWest => ResizeCursor::NwResize,
    }
}

/// The compass direction that a resize cursor points along, if any.
pub open spec fn cursor_compass(c: ResizeCursor) -> Option<Octant> {
    match c {
        ResizeCursor::NResize => Some(Octant::North),
        ResizeCursor::NeResize => Some(Octant::NorthEast),
        ResizeCursor::EResize => Some(Octant::East),
        ResizeCursor::SeResize => Some(Octant::SouthEast),
        ResizeCursor::SResize => Some(Octant::South),
        ResizeCursor::SwResize => Some(Octant::SouthWest),
        ResizeCursor::WResize => Some(Octant::West),
        ResizeCursor::NwResize => Some(Octant::NorthWest),
        ResizeCursor::Default => None,
    }
}

/// Every resize direction shows a resize cursor of that same compass
/// direction (never the plain cursor), so two different directions never
/// share a cursor.
pub proof fn law_cursor_points_along_its_direction(a: Octant, b: Octant)
    ensures
        cursor_compass(cursor_of(a)) == Some(a),
        a != b ==> cursor_of(a) != cursor_of(b),
{
}

/// The resize cursor of a direction.
pub fn cursor_for_resize_direction(direction: Octant) -> (c: ResizeCursor)
    ensures
        c == cursor_of(direction),
{
    match direction {
        Octant::North => ResizeCursor::NResize,
        Octant::NorthEast => ResizeCursor::NeResize,
        Octant::East => ResizeCursor::EResize,
        Octant::SouthEast => ResizeCursor::SeResize,
        Octant::South => ResizeCursor::SResize,
        Octant::SouthWest => ResizeCursor::SwResize,
        Octant::West => ResizeCursor::WResize,
        Octant::NorthWest => ResizeCursor::NwResize,
    }
}

/// Corner handles win over edge handles where they overlap.
pub open spec fn priority_of(handle: Octant) -> u8 {
    match handle {
        Octant::NorthEast | Octant::NorthWest | Octant::SouthEast | Octant::SouthWest => 1,
        _ => 0,
    }
}

/// The priority of a resize handle: 1 for corners, 0 for edges.
pub fn resize_handle_priority(handle: Octant) -> (p: u8)
    ensures
        p == priority_of(handle),
{
    match handle {
        Octant::NorthEast | Octant::NorthWest | Octant::SouthEast | Octant::SouthWest => 1,
        _ => 0,
    }
}

/// A handle counts: pressed, or (when `hover_counts`) hovered.
pub open spec fn handle_counts(interaction: Interaction, hover_counts: bool) -> bool {
    interaction == Interaction::Pressed || (hover_counts && interaction == Interaction::Hovered)
}

/// The handle chosen among `handles` (direction and pointer state each):
/// of those that count, one with the highest priority, the last such one in
/// list order (`Iterator::max_by_key`).
pub open spec fn chosen_handle(handles: Seq<(Octant, Interaction)>, hover_counts: bool) -> Option<Octant>
    decreases handles.len(),
{
    if handles.len() == 0 {
        None
    } else {
        let before = chosen_handle(handles.drop_last(), hover_counts);
        let (h, i) = handles.last();
        if handle_counts(i, hover_counts) && match before {
            Some(b) => priority_of(h) >= priority_of(b),
            None => true,
        } {
            Some(h)
        } else {
            before
        }
    }
}

/// The resize handle that the pointer acts on. `handles` lists every
/// handle's direction and pointer state; with `hover_counts` hovered
/// handles count too (for the cursor), otherwise only pressed ones (for
/// starting a resize).
pub fn pick_resize_handle(handles: &[(Octant, Interaction)], hover_counts: bool) -> (r: Option<Octant>)
    ensures
        r == chosen_handle(handles@, hover_counts),
{
    let mut best: Option<Octant> = None;
    let mut i: usize = 0;
    assert(handles@.take(0) =~= Seq::<(Octant, Interaction)>::empty());
    while i < handles.len()
        invariant
            i <= handles@.len(),
            best == chosen_handle(handles@.take(i as int), hover_counts),
        decreases handles@.len() - i,
    {
        assert(handles@.take(i + 1).drop_last() =~= handles@.take(i as int));
        assert(handles@.take(i + 1).last() == handles@[i as int]);
        let (h, state) = handles[i];
        let counts = match state {
            Interaction::Pressed => true,
            Interaction::Hovered => hover_counts,
            Interaction::Idle => false,
        };
        if counts {
            let better = match best {
                Some(b) => resize_handle_priority(h) >= resize_handle_priority(b),
                None => true,
            };
            if better {
                best = Some(h);
            }
        }
        i = i + 1;
    }
    assert(handles@.take(i as int) =~= handles@);
    best
}

/// The cursor over the window: the resize cursor of the handle under the
/// pointer, or the default cursor.
pub fn resize_cursor(handles: &[(Octant, Interaction)]) -> (c: ResizeCursor)
    ensures
        c == match chosen_handle(handles@, true) {
            Some(h) => cursor_of(h),
            None => ResizeCursor::Default,
        },
{
    match pick_resize_handle(handles, true) {
        Some(h) => cursor_for_resize_direction(h),
        None => ResizeCursor::Default,
    }
}

/// The chosen handle is one that counts, and no counting handle has a
/// higher priority.
pub proof fn law_chosen_handle_is_highest(handles: Seq<(Octant, Interaction)>, hover_counts: bool)
    ensures
        match chosen_handle(handles, hover_counts) {
            Some(h) => (exists|i: int|
                0 <= i < handles.len() && handles[i].0 == h && handle_counts(handles[i].1, hover_counts))
                && forall|i: int|
                0 <= i < handles.len() && handle_counts(handles[i].1, hover_counts) ==> priority_of(
                    handles[i].0,
                ) <= priority_of(h),
            None => forall|i: int| 0 <= i < handles.len() ==> !handle_counts(handles[i].1, hover_counts),
        },
    decreases handles.len(),
{
    if handles.len() > 0 {
        let init = handles.drop_last();
        law_chosen_handle_is_highest(init, hover_counts);
        assert forall|i: int| 0 <= i < init.len() implies handles[i] == init[i] by {}
        let last = handles.len() - 1;
        match chosen_handle(init, hover_counts) {
            Some(b) => {
                let j = choose|i: int|
                    0 <= i < init.len() && init[i].0 == b && handle_counts(init[i].1, hover_counts);
                assert(handles[j] == init[j]);
            },
            None => {},
        }
        assert(handles[last] == handles.last());
    }
}

} // verus!
