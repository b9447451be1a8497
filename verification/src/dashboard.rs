//! The device page of the native dashboard: the USB device list, the busy
//! flag that keeps one device operation at a time, the status lines, and
//! what each button and each finished background operation changes.

use vstd::prelude::*;
use crate::text::{chars_of, equal_chars, owned, push_str, string_from_chars};
use crate::window::Interaction;

verus! {

broadcast use vstd::string::group_string_axioms;

/// A USB ADB device: its serial id and its ADB state (`device` once
/// authorized).
#[derive(Debug)]
pub struct DeviceInfo {
    pub id: String,
    pub status: String,
}

/// The device page's state.
#[derive(Debug)]
pub struct DeviceState {
    pub devices: Vec<DeviceInfo>,
    pub busy: bool,
    pub status: String,
}

impl Default for DeviceState {
    fn default() -> (s: DeviceState)
        ensures
            s.devices@.len() == 0,
            !s.busy,
            s.status@.len() == 0,
    {
        DeviceState { devices: Vec::new(), busy: false, status: String::new() }
    }
}

/// Work that the device page starts outside.
#[derive(Debug)]
pub enum DeviceWork {
    /// List the USB ADB devices.
    ListDevices,
    /// Restart ADB, then list the devices.
    RestartAdb,
    /// Start projecting the device with this id.
    StartProjection(String),
}

/// The buttons of the device page that were pressed this frame.
#[derive(Debug)]
pub struct DeviceButtons {
    pub refresh: bool,
    pub restart_adb: bool,
    pub start: bool,
}

fn prefixed(prefix: &str, tail: &str) -> (r: String)
    ensures
        r@ == prefix@ + tail@,
{
    let mut out = chars_of(prefix);
    push_str(&mut out, tail);
    string_from_chars(out.as_slice())
}

impl DeviceState {
    /// Handles the device page's buttons. While an operation runs, presses
    /// are ignored. Refresh, restart and start are handled in that order,
    /// each starting its work and marking the page busy; start needs a
    /// device, and without one only says so.
    pub fn press_buttons(&mut self, pressed: DeviceButtons) -> (work: Vec<DeviceWork>)
        ensures
            old(self).busy ==> work@.len() == 0 && *final(self) == *old(self),
            !old(self).busy ==> {
                let n = (if pressed.refresh { 1int } else { 0 }) + (if pressed.restart_adb {
                    1int
                } else {
                    0
                });
                let starts = pressed.start && old(self).devices@.len() > 0;
                &&& final(self).devices == old(self).devices
                &&& work@.len() == n + if starts { 1int } else { 0 }
                &&& pressed.refresh ==> work@[0] is ListDevices
                &&& pressed.restart_adb ==> work@[n - 1] is RestartAdb
                &&& starts ==> (work@[n] matches DeviceWork::StartProjection(id) && id@
                    == old(self).devices@[0].id@)
                &&& final(self).busy == (old(self).busy || n > 0 || starts)
                &&& final(self).status@ == if pressed.start && old(self).devices@.len() == 0 {
                    "没有可投屏的 USB ADB 设备"@
                } else if starts {
                    "正在启动投屏…"@
                } else if pressed.restart_adb {
                    "正在重启 ADB…"@
                } else if pressed.refresh {
                    "正在刷新设备…"@
                } else {
                    old(self).status@
                }
            },
    {
        let mut work: Vec<DeviceWork> = Vec::new();
        if self.busy {
            return work;
        }
        if pressed.refresh {
            self.busy = true;
            self.status = owned("正在刷新设备…");
            work.push(DeviceWork::ListDevices);
        }
        if pressed.restart_adb {
            self.busy = true;
            self.status = owned("正在重启 ADB…");
            work.push(DeviceWork::RestartAdb);
        }
        if pressed.start {
            if self.devices.len() == 0 {
                self.status = owned("没有可投屏的 USB ADB 设备");
                return work;
            }
            let id = self.devices[0].id.clone();
            self.busy = true;
            self.status = owned("正在启动投屏…");
            work.push(DeviceWork::StartProjection(id));
        }
        work
    }
}

/// A background operation that finished.
#[derive(Debug)]
pub enum DeviceResult {
    /// The device list, or why it could not be read.
    Devices(Result<Vec<DeviceInfo>, String>),
    /// The projection started, or why it did not.
    Projection(Result<(), String>),
    /// Activating the mapping file succeeded or failed.
    MappingActivated { file: String, result: Result<(), String> },
    /// The editing background arrived (handled by the editor).
    MappingBackground,
}

/// What the page does after a result, besides updating its state.
#[derive(Debug)]
pub enum ResultEffect {
    Nothing,
    /// Hide the dashboard and show the projection.
    ShowProjection,
    /// Remember this mapping file as the active one and show the status.
    ActivateMapping(String),
    /// Show the status line on the current page.
    ShowStatus,
}

impl DeviceState {
    /// Takes a finished background operation. Every result ends the busy
    /// state.
    pub fn receive(&mut self, result: DeviceResult) -> (effect: ResultEffect)
        ensures
            !final(self).busy,
            match result {
                DeviceResult::Devices(Ok(list)) => {
                    &&& final(self).devices == list
                    &&& effect is Nothing
                    &&& final(self).status@ == if list@.len() == 0 {
                        "未检测到已授权的 USB ADB 设备"@
                    } else {
                        "ADB 已连接："@ + list@[0].id@
                    }
                },
                DeviceResult::Devices(Err(e)) => {
                    &&& final(self).devices@.len() == 0
                    &&& effect is Nothing
                    &&& final(self).status@ == "ADB 错误："@ + e@
                },
                DeviceResult::Projection(Ok(())) => {
                    &&& final(self).devices == old(self).devices
                    &&& effect is ShowProjection
                    &&& final(self).status@ == "投屏已启动"@
                },
                DeviceResult::Projection(Err(e)) => {
                    &&& final(self).devices == old(self).devices
                    &&& effect is Nothing
                    &&& final(self).status@ == "投屏失败："@ + e@
                },
                DeviceResult::MappingActivated { file, result: Ok(()) } => {
                    &&& final(self).devices == old(self).devices
                    &&& effect == ResultEffect::ActivateMapping(file)
                    &&& final(self).status@ == "映射已启用："@ + file@
                },
                DeviceResult::MappingActivated { file, result: Err(e) } => {
                    &&& final(self).devices == old(self).devices
                    &&& effect is ShowStatus
                    &&& final(self).status@ == "映射启用失败："@ + e@
                },
                DeviceResult::MappingBackground => {
                    &&& final(self).devices == old(self).devices
                    &&& effect is Nothing
                    &&& final(self).status == old(self).status
                },
            },
    {
        self.busy = false;
        match result {
            DeviceResult::Devices(Ok(list)) => {
                self.status = if list.len() == 0 {
                    owned("未检测到已授权的 USB ADB 设备")
                } else {
                    prefixed("ADB 已连接：", list[0].id.as_str())
                };
                self.devices = list;
                ResultEffect::Nothing
            },
            DeviceResult::Devices(Err(e)) => {
                self.devices.clear();
                self.status = prefixed("ADB 错误：", e.as_str());
                ResultEffect::Nothing
            },
            DeviceResult::Projection(Ok(())) => {
                self.status = owned("投屏已启动");
                ResultEffect::ShowProjection
            },
            DeviceResult::Projection(Err(e)) => {
                self.status = prefixed("投屏失败：", e.as_str());
                ResultEffect::Nothing
            },
            DeviceResult::MappingActivated { file, result } => match result {
                Ok(()) => {
                    self.status = prefixed("映射已启用：", file.as_str());
                    ResultEffect::ActivateMapping(file)
                },
                Err(e) => {
                    self.status = prefixed("映射启用失败：", e.as_str());
                    ResultEffect::ShowStatus
                },
            },
            DeviceResult::MappingBackground => ResultEffect::Nothing,
        }
    }
}

/// The texts of the device page: the device's identity, its connection
/// state, and the footer.
#[derive(Debug)]
pub struct DashboardTexts {
    pub identity: String,
    pub device_status: String,
    pub footer: String,
}

/// Whether the ADB state is `device`.
pub open spec fn is_authorized(status: Seq<char>) -> bool {
    status == "device"@
}

/// The texts that the device page shows for `state`.
pub fn dashboard_texts(state: &DeviceState) -> (t: DashboardTexts)
    ensures
        t.identity@ == if state.devices@.len() == 0 {
            "没有数据"@
        } else {
            state.devices@[0].id@
        },
        t.device_status@ == if state.devices@.len() == 0 {
            "未连接"@
        } else if is_authorized(state.devices@[0].status@) {
            "●  已连接"@
        } else {
            "●  未授权"@
        },
        t.footer@ == if state.status@.len() == 0 {
            "●  ADB 就绪"@
        } else {
            state.status@
        },
{
    let (identity, device_status) = if state.devices.len() == 0 {
        (owned("没有数据"), owned("未连接"))
    } else {
        let first = &state.devices[0];
        let s = chars_of(first.status.as_str());
        let device = chars_of("device");
        let status = if equal_chars(s.as_slice(), device.as_slice()) {
            owned("●  已连接")
        } else {
            owned("●  未授权")
        };
        (first.id.clone(), status)
    };
    let footer = if state.status.as_str().unicode_len() == 0 {
        owned("●  ADB 就绪")
    } else {
        state.status.clone()
    };
    DashboardTexts { identity, device_status, footer }
}

/// The pages of the dashboard.
#[derive(Clone, Copy, Debug, PartialEq, Eq, Structural)]
pub enum NativePage {
    Device,
    Mapping,
    Settings,
}

/// Shades of the dashboard's buttons.
#[derive(Clone, Copy, Debug, PartialEq, Eq, Structural)]
pub enum DashboardShade {
    /// The accent colour of the device page's action buttons.
    Accent,
    AccentHovered,
    AccentPressed,
    /// The navigation entry of the current page.
    NavActive,
    NavHovered,
    NavPressed,
    /// A navigation entry at rest (transparent).
    NavIdle,
    /// A list or settings button at rest.
    Panel,
}

/// The shade of a device page action button.
pub fn action_button_shade(interaction: Interaction) -> (s: DashboardShade)
    ensures
        s == match interaction {
            Interaction::Pressed => DashboardShade::AccentPressed,
            Interaction::Hovered => DashboardShade::AccentHovered,
            Interaction::Idle => DashboardShade::Accent,
        },
{
    match interaction {
        Interaction::Pressed => DashboardShade::AccentPressed,
        Interaction::Hovered => DashboardShade::AccentHovered,
        Interaction::Idle => DashboardShade::Accent,
    }
}

/// The shade of the navigation entry of `page` while `current` is shown.
pub fn navigation_shade(page: NativePage, current: NativePage, interaction: Interaction) -> (s: DashboardShade)
    ensures
        s == if page == current {
            DashboardShade::NavActive
        } else {
            match interaction {
                Interaction::Hovered => DashboardShade::NavHovered,
                Interaction::Pressed => DashboardShade::NavPressed,
                Interaction::Idle => DashboardShade::NavIdle,
            }
        },
{
    if page == current {
        DashboardShade::NavActive
    } else {
        match interaction {
            Interaction::Hovered => DashboardShade::NavHovered,
            Interaction::Pressed => DashboardShade::NavPressed,
            Interaction::Idle => DashboardShade::NavIdle,
        }
    }
}

/// The shade of a mapping-file or settings button.
pub fn control_shade(interaction: Interaction) -> (s: DashboardShade)
    ensures
        s == match interaction {
            Interaction::Hovered => DashboardShade::AccentHovered,
            Interaction::Pressed => DashboardShade::AccentPressed,
            Interaction::Idle => DashboardShade::Panel,
        },
{
    match interaction {
        Interaction::Hovered => DashboardShade::AccentHovered,
        Interaction::Pressed => DashboardShade::AccentPressed,
        Interaction::Idle => DashboardShade::Panel,
    }
}

/// The page shown after the navigation entries that were pressed this
/// frame (`pressed`, in query order): the first of them, or the current
/// page when none was pressed.
pub fn navigate(current: NativePage, pressed: &[NativePage]) -> (r: NativePage)
    ensures
        r == if pressed@.len() == 0 {
            current
        } else {
            pressed@[0]
        },
{
    if pressed.len() == 0 {
        current
    } else {
        pressed[0]
    }
}

/// Whether the page `page` is shown while `current` is the current page.
pub fn page_shown(page: NativePage, current: NativePage) -> (r: bool)
    ensures
        r == (page == current),
{
    page == current
}

/// Exactly one of the three pages is shown, whichever page is current.
pub proof fn law_exactly_one_page_shown(current: NativePage)
    ensures
        (NativePage::Device == current) || (NativePage::Mapping == current) || (NativePage::Settings
            == current),
        !((NativePage::Device == current) && (NativePage::Mapping == current)),
        !((NativePage::Device == current) && (NativePage::Settings == current)),
        !((NativePage::Mapping == current) && (NativePage::Settings == current)),
{
}

} // verus!
