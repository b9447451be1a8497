//! The state of the mapping editor page and how each editor event changes
//! it: which mapping file is open, the edited and the saved document, the
//! selected and dragged button, whether there are unsaved changes, and the
//! status line. A document is its list of buttons and the rest of it; the
//! type of a button (and of the rest) is a parameter (the client uses JSON
//! values), and the editor never looks inside one: it copies, replaces,
//! removes and appends whole buttons.

use vstd::prelude::*;
use crate::text::{chars_of, owned, push_str, string_from_chars};

verus! {

broadcast use vstd::string::group_string_axioms;

/// A mapping document: its buttons in order (`None` when it has no button
/// list), and everything else in it.
#[derive(Debug)]
pub struct MappingDoc<B> {
    pub header: B,
    pub buttons: Option<Vec<B>>,
}

impl<B> MappingDoc<B> {
    /// The buttons, as a sequence.
    pub open spec fn button_list(self) -> Option<Seq<B>> {
        match self.buttons {
            Some(v) => Some(v@),
            None => None,
        }
    }
}

/// `b` is a copy of `a`: every part of it a clone of the same part of `a`.
pub open spec fn copied<B: Clone>(a: MappingDoc<B>, b: MappingDoc<B>) -> bool {
    &&& vstd::pervasive::cloned(a.header, b.header)
    &&& match a.buttons {
        Some(x) => b.buttons matches Some(y) && y@.len() == x@.len() && forall|i: int|
            0 <= i < x@.len() ==> vstd::pervasive::cloned(#[trigger] x@[i], y@[i]),
        None => b.buttons is None,
    }
}

impl<B: Clone> MappingDoc<B> {
    /// A copy of the document.
    pub fn copy(&self) -> (r: Self)
        ensures
            copied(*self, r),
    {
        let header = self.header.clone();
        let buttons = match &self.buttons {
            Some(v) => {
                let mut out: Vec<B> = Vec::new();
                let mut i: usize = 0;
                while i < v.len()
                    invariant
                        i <= v@.len(),
                        out@.len() == i,
                        forall|j: int| 0 <= j < i ==> vstd::pervasive::cloned(#[trigger] v@[j], out@[j]),
                    decreases v@.len() - i,
                {
                    let c = v[i].clone();
                    out.push(c);
                    i = i + 1;
                }
                Some(out)
            },
            None => None,
        };
        MappingDoc { header, buttons }
    }
}

/// `index` names a button of `d`.
pub open spec fn has_button<B>(d: MappingDoc<B>, index: int) -> bool {
    d.buttons matches Some(v) && 0 <= index < v@.len()
}

/// `t` is `s` with its button at `index` replaced by `button`.
pub open spec fn replaced_button<B>(s: MappingDoc<B>, t: MappingDoc<B>, index: int, button: B) -> bool {
    &&& t.header == s.header
    &&& s.buttons matches Some(v) && t.buttons matches Some(w) && w@ == v@.update(index, button)
}

/// `t` is `s` without its button at `index`.
pub open spec fn removed_button<B>(s: MappingDoc<B>, t: MappingDoc<B>, index: int) -> bool {
    &&& t.header == s.header
    &&& s.buttons matches Some(v) && t.buttons matches Some(w) && w@ == v@.remove(index)
}

/// `t` is `s` with `button` appended to its buttons.
pub open spec fn appended_button<B>(s: MappingDoc<B>, t: MappingDoc<B>, button: B) -> bool {
    &&& t.header == s.header
    &&& s.buttons matches Some(v) && t.buttons matches Some(w) && w@ == v@.push(button)
}

fn replace_button<B>(doc: &mut MappingDoc<B>, index: usize, button: B) -> (done: bool)
    ensures
        done == has_button(*old(doc), index as int),
        done ==> replaced_button(*old(doc), *final(doc), index as int, button),
        !done ==> *final(doc) == *old(doc),
{
    let mut taken: Option<Vec<B>> = None;
    std::mem::swap(&mut taken, &mut doc.buttons);
    match taken {
        Some(mut v) => {
            if index < v.len() {
                v.set(index, button);
                doc.buttons = Some(v);
                true
            } else {
                doc.buttons = Some(v);
                false
            }
        },
        None => false,
    }
}

fn remove_button<B>(doc: &mut MappingDoc<B>, index: usize) -> (done: bool)
    ensures
        done == has_button(*old(doc), index as int),
        done ==> removed_button(*old(doc), *final(doc), index as int),
        !done ==> *final(doc) == *old(doc),
{
    let mut taken: Option<Vec<B>> = None;
    std::mem::swap(&mut taken, &mut doc.buttons);
    match taken {
        Some(mut v) => {
            if index < v.len() {
                v.remove(index);
                doc.buttons = Some(v);
                true
            } else {
                doc.buttons = Some(v);
                false
            }
        },
        None => false,
    }
}

/// Appends `button`; gives the index it got, or `None` (and changes
/// nothing) when the document has no button list.
fn append_button<B>(doc: &mut MappingDoc<B>, button: B) -> (index: Option<usize>)
    ensures
        index is Some == old(doc).buttons is Some,
        index matches Some(i) ==> appended_button(*old(doc), *final(doc), button) && (old(
            doc,
        ).buttons matches Some(v) && i == v@.len()),
        index is None ==> *final(doc) == *old(doc),
{
    let mut taken: Option<Vec<B>> = None;
    std::mem::swap(&mut taken, &mut doc.buttons);
    match taken {
        Some(mut v) => {
            let i = v.len();
            v.push(button);
            doc.buttons = Some(v);
            Some(i)
        },
        None => None,
    }
}

/// The document that the advanced editor's text would make of `doc`: a
/// copy of it with the button at `index` replaced by `button`; `None` when
/// there is no button at `index`. It is what gets validated before the
/// edit is applied.
pub fn with_button_replaced<B: Clone>(doc: &MappingDoc<B>, index: usize, button: B) -> (r: Option<
    MappingDoc<B>,
>)
    ensures
        r is Some <==> has_button(*doc, index as int),
        r matches Some(d) ==> {
            &&& vstd::pervasive::cloned(doc.header, d.header)
            &&& doc.buttons matches Some(v) && d.buttons matches Some(w) && w@.len() == v@.len() && w@[index as int]
                == button && forall|j: int|
                0 <= j < v@.len() && j != index ==> vstd::pervasive::cloned(#[trigger] v@[j], w@[j])
        },
{
    if !(match &doc.buttons {
        Some(v) => index < v.len(),
        None => false,
    }) {
        return None;
    }
    let mut d = doc.copy();
    let done = replace_button(&mut d, index, button);
    assert(done);
    Some(d)
}

/// The editor page's state.
#[derive(Debug)]
pub struct EditorState<B> {
    pub file: String,
    pub current: MappingDoc<B>,
    pub saved: MappingDoc<B>,
    pub selected: Option<usize>,
    pub dragging: Option<usize>,
    pub dirty: bool,
    pub show_guides: bool,
    pub needs_rebuild: bool,
    pub capturing_binding: bool,
    pub advanced_edit: Option<(usize, String)>,
    pub status: String,
}

/// What happened on the editor page (the outcome of a button, a key, or of
/// work done outside: reading, validating and writing files, and working
/// out the new content of an edited button).
#[derive(Debug)]
pub enum EditorEvent<B> {
    /// A mapping file was picked in the list and read.
    Opened { file: String, value: MappingDoc<B> },
    /// A mapping file picked in the list could not be read.
    OpenFailed(String),
    /// The edited document passed validation and was written.
    Saved,
    SaveFailed(String),
    /// Restore: go back to the saved document.
    Restored,
    /// The open file was read again.
    Reloaded(MappingDoc<B>),
    ReloadFailed(String),
    GuidesToggled,
    /// No device to take the editing background from.
    BackgroundUnavailable,
    BackgroundRequested,
    BackgroundLoaded,
    BackgroundDecodeFailed(String),
    BackgroundFailed(String),
    /// Activation refused: the document is invalid.
    ActivateRejected(String),
    ActivateStarted,
    /// Another mapping file is now being edited (created, copied, renamed,
    /// or picked after a delete).
    Switched { file: String, value: MappingDoc<B> },
    /// Managing files failed with this message.
    ManageFailed(String),
    FolderOpened,
    /// A button on the canvas was pressed.
    NodePressed(usize),
    /// The left mouse button was released.
    PointerReleased,
    /// The dragged button at `index` moved and is now `button`; the status
    /// line to show.
    Moved { index: usize, button: B, text: String },
    /// A size or random-offset parameter of the button at `index` changed.
    PropertyAdjusted { index: usize, button: B },
    /// The direction pad at `index` was bound to WASD.
    DirectionPadBound { index: usize, button: B },
    /// Waiting for the key to bind to the selected button.
    CaptureStarted,
    /// The button at `index` was bound to the left mouse button.
    MouseLeftBound { index: usize, button: B },
    /// The advanced editor opened on a button with its JSON text.
    AdvancedOpened { index: usize, text: String },
    AdvancedOpenFailed(String),
    /// The button at this index was deleted.
    Deleted(usize),
    /// Escape while waiting for a key.
    CaptureCancelled,
    /// Waiting for a key ended without a button to bind.
    CaptureAborted,
    /// The key named `key` was bound to the button at `index`.
    Captured { index: usize, button: B, key: String },
    AdvancedCancelled,
    /// The advanced editor's text replaced the button at `index`, and the
    /// document then passed validation.
    AdvancedApplied { index: usize, button: B },
    /// The advanced editor's text replaced the button at `index`, and the
    /// document then failed validation with this message.
    AdvancedRejected { index: usize, button: B, error: String },
    AdvancedSyntaxError(String),
    /// A new button of this type was appended.
    Added { kind: String, button: B },
}

/// The status line of a freshly opened editor.
pub open spec fn welcome_text() -> Seq<char> {
    "拖动按键可调整位置；右侧可调整大小与随机偏移。"@
}

impl<B: Clone> EditorState<B> {
    /// The editor on `file`, whose document was read as `value` (or is the
    /// empty mapping when it could not be read).
    pub fn new(file: String, value: MappingDoc<B>) -> (s: Self)
        ensures
            s.file == file,
            s.saved == value,
            copied(value, s.current),
            s.selected is None,
            s.dragging is None,
            !s.dirty,
            s.show_guides,
            !s.needs_rebuild,
            !s.capturing_binding,
            s.advanced_edit is None,
            s.status@ == welcome_text(),
    {
        EditorState {
            file,
            current: value.copy(),
            saved: value,
            selected: None,
            dragging: None,
            dirty: false,
            show_guides: true,
            needs_rebuild: false,
            capturing_binding: false,
            advanced_edit: None,
            status: owned("拖动按键可调整位置；右侧可调整大小与随机偏移。"),
        }
    }
}

/// Everything but the status line is unchanged.
pub open spec fn only_status<B>(s: EditorState<B>, t: EditorState<B>) -> bool {
    &&& t.file == s.file
    &&& t.current == s.current
    &&& t.saved == s.saved
    &&& t.selected == s.selected
    &&& t.dragging == s.dragging
    &&& t.dirty == s.dirty
    &&& t.show_guides == s.show_guides
    &&& t.needs_rebuild == s.needs_rebuild
    &&& t.capturing_binding == s.capturing_binding
    &&& t.advanced_edit == s.advanced_edit
}

/// `t` edits a fresh copy of `value` as `file`: the saved document is
/// `value`, the edited one a copy of it, nothing is selected, and the
/// canvas is rebuilt. Whether the drag ends too is `clears_drag`.
pub open spec fn fresh_document<B: Clone>(
    s: EditorState<B>,
    t: EditorState<B>,
    file: String,
    value: MappingDoc<B>,
    clears_drag: bool,
) -> bool {
    &&& t.file == file
    &&& t.saved == value
    &&& copied(value, t.current)
    &&& t.selected is None
    &&& t.dragging == (if clears_drag { None } else { s.dragging })
    &&& !t.dirty
    &&& t.needs_rebuild
    &&& t.show_guides == s.show_guides
    &&& t.capturing_binding == s.capturing_binding
    &&& t.advanced_edit == s.advanced_edit
}

/// `t` differs from `s` at most in the edited document, in the flags that
/// the caller names, and in its status line, which is `status`.
pub open spec fn edited_flags<B>(
    s: EditorState<B>,
    t: EditorState<B>,
    dirty: bool,
    capturing: bool,
    status: Seq<char>,
) -> bool {
    &&& t.file == s.file
    &&& t.saved == s.saved
    &&& t.selected == s.selected
    &&& t.dragging == s.dragging
    &&& t.dirty == dirty
    &&& t.show_guides == s.show_guides
    &&& t.needs_rebuild == s.needs_rebuild
    &&& t.capturing_binding == capturing
    &&& t.advanced_edit == s.advanced_edit
    &&& t.status@ == status
}

/// The button at `index` of the edited document is replaced by `button`,
/// the document becomes unsaved and the status line is `status`; when
/// there is no button at `index`, nothing changes.
pub open spec fn button_edit<B>(
    s: EditorState<B>,
    t: EditorState<B>,
    index: usize,
    button: B,
    status: Seq<char>,
) -> bool {
    if has_button(s.current, index as int) {
        replaced_button(s.current, t.current, index as int, button) && edited_flags(
            s,
            t,
            true,
            s.capturing_binding,
            status,
        )
    } else {
        t == s
    }
}

/// How `event` moves the editor from `s` to `t`.
pub open spec fn editor_step<B: Clone>(s: EditorState<B>, event: EditorEvent<B>, t: EditorState<B>) -> bool {
    match event {
        EditorEvent::Opened { file, value } => fresh_document(s, t, file, value, false)
            && t.status@ == "正在加载并启用映射："@ + file@,
        EditorEvent::OpenFailed(e) => only_status(s, t) && t.status@ == "无法打开映射："@ + e@,
        EditorEvent::Saved => {
            &&& t.file == s.file
            &&& t.current == s.current
            &&& copied(s.current, t.saved)
            &&& t.selected == s.selected
            &&& t.dragging == s.dragging
            &&& !t.dirty
            &&& t.show_guides == s.show_guides
            &&& t.needs_rebuild == s.needs_rebuild
            &&& t.capturing_binding == s.capturing_binding
            &&& t.advanced_edit == s.advanced_edit
            &&& t.status@ == "已保存并通过校验："@ + s.file@
        },
        EditorEvent::SaveFailed(e) => only_status(s, t) && t.status@ == "保存失败："@ + e@,
        EditorEvent::Restored => {
            &&& t.file == s.file
            &&& copied(s.saved, t.current)
            &&& t.saved == s.saved
            &&& t.selected is None
            &&& t.dragging is None
            &&& !t.dirty
            &&& t.needs_rebuild
            &&& t.show_guides == s.show_guides
            &&& t.capturing_binding == s.capturing_binding
            &&& t.advanced_edit == s.advanced_edit
            &&& t.status@ == "已还原到上次保存状态"@
        },
        EditorEvent::Reloaded(value) => fresh_document(s, t, s.file, value, true) && t.status@
            == "已从磁盘重新读取映射和背景尺寸"@,
        EditorEvent::ReloadFailed(e) => only_status(s, t) && t.status@ == "刷新失败："@ + e@,
        EditorEvent::GuidesToggled => {
            &&& t.show_guides == !s.show_guides
            &&& t.file == s.file
            &&& t.current == s.current
            &&& t.saved == s.saved
            &&& t.selected == s.selected
            &&& t.dragging == s.dragging
            &&& t.dirty == s.dirty
            &&& t.needs_rebuild == s.needs_rebuild
            &&& t.capturing_binding == s.capturing_binding
            &&& t.advanced_edit == s.advanced_edit
            &&& t.status@ == "辅助范围已"@ + (if t.show_guides {
                "显示"@
            } else {
                "隐藏"@
            })
        },
        EditorEvent::BackgroundUnavailable => only_status(s, t) && t.status@
            == "刷新背景失败：没有已授权的 USB ADB 设备"@,
        EditorEvent::BackgroundRequested => only_status(s, t) && t.status@ == "正在从手机截取编辑背景…"@,
        EditorEvent::BackgroundLoaded => only_status(s, t) && t.status@ == "编辑背景已从手机刷新"@,
        EditorEvent::BackgroundDecodeFailed(e) => only_status(s, t) && t.status@ == "背景图片解码失败："@
            + e@,
        EditorEvent::BackgroundFailed(e) => only_status(s, t) && t.status@ == "刷新背景失败："@ + e@,
        EditorEvent::ActivateRejected(e) => only_status(s, t) && t.status@ == "启用失败："@ + e@,
        EditorEvent::ActivateStarted => only_status(s, t) && t.status@ == "正在启用："@ + s.file@,
        EditorEvent::Switched { file, value } => fresh_document(s, t, file, value, true)
            && t.status@ == "正在编辑："@ + file@,
        EditorEvent::ManageFailed(e) => only_status(s, t) && t.status@ == e@,
        EditorEvent::FolderOpened => only_status(s, t) && t.status@ == "已打开映射目录，可直接导入或导出 JSON 文件"@,
        EditorEvent::NodePressed(i) => {
            &&& t.selected == Some(i)
            &&& t.dragging == Some(i)
            &&& t.file == s.file
            &&& t.current == s.current
            &&& t.saved == s.saved
            &&& t.dirty == s.dirty
            &&& t.show_guides == s.show_guides
            &&& t.needs_rebuild == s.needs_rebuild
            &&& t.capturing_binding == s.capturing_binding
            &&& t.advanced_edit == s.advanced_edit
            &&& t.status == s.status
        },
        EditorEvent::PointerReleased => {
            &&& t.dragging is None
            &&& t.selected == s.selected
            &&& t.file == s.file
            &&& t.current == s.current
            &&& t.saved == s.saved
            &&& t.dirty == s.dirty
            &&& t.show_guides == s.show_guides
            &&& t.needs_rebuild == s.needs_rebuild
            &&& t.capturing_binding == s.capturing_binding
            &&& t.advanced_edit == s.advanced_edit
            &&& t.status == s.status
        },
        EditorEvent::Moved { index, button, text } => button_edit(s, t, index, button, text@),
        EditorEvent::PropertyAdjusted { index, button } => button_edit(
            s,
            t,
            index,
            button,
            "按键参数已修改（尚未保存）"@,
        ),
        EditorEvent::DirectionPadBound { index, button } => button_edit(
            s,
            t,
            index,
            button,
            "方向盘已绑定为 WASD（尚未保存）"@,
        ),
        EditorEvent::CaptureStarted => edited_flags(s, t, s.dirty, true, "请按下要绑定的键盘按键；Esc 取消"@)
            && t.current == s.current,
        EditorEvent::MouseLeftBound { index, button } => button_edit(
            s,
            t,
            index,
            button,
            "已绑定鼠标左键（尚未保存）"@,
        ),
        EditorEvent::AdvancedOpened { index, text } => {
            &&& t.advanced_edit == Some((index, text))
            &&& t.file == s.file
            &&& t.current == s.current
            &&& t.saved == s.saved
            &&& t.selected == s.selected
            &&& t.dragging == s.dragging
            &&& t.dirty == s.dirty
            &&& t.show_guides == s.show_guides
            &&& t.needs_rebuild == s.needs_rebuild
            &&& t.capturing_binding == s.capturing_binding
            &&& t.status@ == "正在编辑脚本 / 高级参数"@
        },
        EditorEvent::AdvancedOpenFailed(e) => only_status(s, t) && t.status@ == "无法打开高级编辑器："@ + e@,
        EditorEvent::Deleted(index) => if has_button(s.current, index as int) {
            &&& removed_button(s.current, t.current, index as int)
            &&& t.selected is None
            &&& t.dragging is None
            &&& t.needs_rebuild
            &&& t.dirty
            &&& t.file == s.file
            &&& t.saved == s.saved
            &&& t.show_guides == s.show_guides
            &&& t.capturing_binding == s.capturing_binding
            &&& t.advanced_edit == s.advanced_edit
            &&& t.status@ == "已删除按键（尚未保存）"@
        } else {
            t == s
        },
        EditorEvent::CaptureCancelled => edited_flags(s, t, s.dirty, false, "已取消按键绑定"@) && t.current
            == s.current,
        EditorEvent::CaptureAborted => edited_flags(s, t, s.dirty, false, s.status@) && t.status == s.status
            && t.current == s.current,
        EditorEvent::Captured { index, button, key } => if has_button(s.current, index as int) {
            replaced_button(s.current, t.current, index as int, button) && edited_flags(
                s,
                t,
                true,
                false,
                "已绑定 "@ + key@ + "（尚未保存）"@,
            )
        } else {
            edited_flags(s, t, s.dirty, false, s.status@) && t.status == s.status && t.current
                == s.current
        },
        EditorEvent::AdvancedCancelled => {
            &&& t.advanced_edit is None
            &&& t.file == s.file
            &&& t.current == s.current
            &&& t.saved == s.saved
            &&& t.selected == s.selected
            &&& t.dragging == s.dragging
            &&& t.dirty == s.dirty
            &&& t.show_guides == s.show_guides
            &&& t.needs_rebuild == s.needs_rebuild
            &&& t.capturing_binding == s.capturing_binding
            &&& t.status@ == "已取消高级参数编辑"@
        },
        EditorEvent::AdvancedApplied { index, button } => if has_button(s.current, index as int) {
            &&& replaced_button(s.current, t.current, index as int, button)
            &&& t.advanced_edit is None
            &&& t.dirty
            &&& t.needs_rebuild
            &&& t.file == s.file
            &&& t.saved == s.saved
            &&& t.selected == s.selected
            &&& t.dragging == s.dragging
            &&& t.show_guides == s.show_guides
            &&& t.capturing_binding == s.capturing_binding
            &&& t.status@ == "高级参数已应用（尚未保存）"@
        } else {
            t == s
        },
        EditorEvent::AdvancedRejected { index, button, error } => if has_button(
            s.current,
            index as int,
        ) {
            &&& replaced_button(s.current, t.current, index as int, button)
            &&& edited_flags(s, t, s.dirty, s.capturing_binding, "参数校验失败："@ + error@)
        } else {
            t == s
        },
        EditorEvent::AdvancedSyntaxError(e) => only_status(s, t) && t.status@ == "JSON 格式错误："@ + e@,
        EditorEvent::Added { kind, button } => match s.current.buttons {
            Some(v) => {
                &&& appended_button(s.current, t.current, button)
                &&& t.selected == Some(v@.len() as usize)
                &&& t.dirty
                &&& t.needs_rebuild
                &&& t.file == s.file
                &&& t.saved == s.saved
                &&& t.dragging == s.dragging
                &&& t.show_guides == s.show_guides
                &&& t.capturing_binding == s.capturing_binding
                &&& t.advanced_edit == s.advanced_edit
                &&& t.status@ == "已添加 "@ + kind@ + "（尚未保存）"@
            },
            None => t == s,
        },
    }
}

fn joined(prefix: &str, middle: &str, suffix: &str) -> (r: String)
    ensures
        r@ == prefix@ + middle@ + suffix@,
{
    let mut out = chars_of(prefix);
    push_str(&mut out, middle);
    push_str(&mut out, suffix);
    string_from_chars(out.as_slice())
}

fn prefixed(prefix: &str, tail: &str) -> (r: String)
    ensures
        r@ == prefix@ + tail@,
{
    let mut out = chars_of(prefix);
    push_str(&mut out, tail);
    string_from_chars(out.as_slice())
}

impl<B: Clone> EditorState<B> {
    /// Replaces the button at `index` with `button` and marks the document
    /// unsaved with `status`; nothing changes when there is no such button.
    fn edit_button(&mut self, index: usize, button: B, status: String)
        ensures
            button_edit(*old(self), *final(self), index, button, status@),
    {
        if replace_button(&mut self.current, index, button) {
            self.dirty = true;
            self.status = status;
        }
    }

    /// Applies an editor event.
    pub fn apply(&mut self, event: EditorEvent<B>)
        ensures
            editor_step(*old(self), event, *final(self)),
    {
        match event {
            EditorEvent::Opened { file, value } => {
                self.status = prefixed("正在加载并启用映射：", file.as_str());
                self.file = file;
                self.current = value.copy();
                self.saved = value;
                self.selected = None;
                self.dirty = false;
                self.needs_rebuild = true;
            },
            EditorEvent::OpenFailed(e) => {
                self.status = prefixed("无法打开映射：", e.as_str());
            },
            EditorEvent::Saved => {
                self.saved = self.current.copy();
                self.dirty = false;
                self.status = prefixed("已保存并通过校验：", self.file.as_str());
            },
            EditorEvent::SaveFailed(e) => {
                self.status = prefixed("保存失败：", e.as_str());
            },
            EditorEvent::Restored => {
                self.current = self.saved.copy();
                self.selected = None;
                self.dragging = None;
                self.dirty = false;
                self.needs_rebuild = true;
                self.status = owned("已还原到上次保存状态");
            },
            EditorEvent::Reloaded(value) => {
                self.current = value.copy();
                self.saved = value;
                self.selected = None;
                self.dragging = None;
                self.dirty = false;
                self.needs_rebuild = true;
                self.status = owned("已从磁盘重新读取映射和背景尺寸");
            },
            EditorEvent::ReloadFailed(e) => {
                self.status = prefixed("刷新失败：", e.as_str());
            },
            EditorEvent::GuidesToggled => {
                self.show_guides = !self.show_guides;
                self.status = if self.show_guides {
                    owned("辅助范围已显示")
                } else {
                    owned("辅助范围已隐藏")
                };
                proof {
                    reveal_strlit("辅助范围已显示");
                    reveal_strlit("辅助范围已隐藏");
                    reveal_strlit("辅助范围已");
                    reveal_strlit("显示");
                    reveal_strlit("隐藏");
                    assert("辅助范围已显示"@ =~= "辅助范围已"@ + "显示"@);
                    assert("辅助范围已隐藏"@ =~= "辅助范围已"@ + "隐藏"@);
                }
            },
            EditorEvent::BackgroundUnavailable => {
                self.status = owned("刷新背景失败：没有已授权的 USB ADB 设备");
            },
            EditorEvent::BackgroundRequested => {
                self.status = owned("正在从手机截取编辑背景…");
            },
            EditorEvent::BackgroundLoaded => {
                self.status = owned("编辑背景已从手机刷新");
            },
            EditorEvent::BackgroundDecodeFailed(e) => {
                self.status = prefixed("背景图片解码失败：", e.as_str());
            },
            EditorEvent::BackgroundFailed(e) => {
                self.status = prefixed("刷新背景失败：", e.as_str());
            },
            EditorEvent::ActivateRejected(e) => {
                self.status = prefixed("启用失败：", e.as_str());
            },
            EditorEvent::ActivateStarted => {
                self.status = prefixed("正在启用：", self.file.as_str());
            },
            EditorEvent::Switched { file, value } => {
                self.status = prefixed("正在编辑：", file.as_str());
                self.file = file;
                self.current = value.copy();
                self.saved = value;
                self.selected = None;
                self.dragging = None;
                self.dirty = false;
                self.needs_rebuild = true;
            },
            EditorEvent::ManageFailed(e) => {
                self.status = e;
            },
            EditorEvent::FolderOpened => {
                self.status = owned("已打开映射目录，可直接导入或导出 JSON 文件");
            },
            EditorEvent::NodePressed(i) => {
                self.selected = Some(i);
                self.dragging = Some(i);
            },
            EditorEvent::PointerReleased => {
                self.dragging = None;
            },
            EditorEvent::Moved { index, button, text } => {
                self.edit_button(index, button, text);
            },
            EditorEvent::PropertyAdjusted { index, button } => {
                self.edit_button(index, button, owned("按键参数已修改（尚未保存）"));
            },
            EditorEvent::DirectionPadBound { index, button } => {
                self.edit_button(index, button, owned("方向盘已绑定为 WASD（尚未保存）"));
            },
            EditorEvent::CaptureStarted => {
                self.capturing_binding = true;
                self.status = owned("请按下要绑定的键盘按键；Esc 取消");
            },
            EditorEvent::MouseLeftBound { index, button } => {
                self.edit_button(index, button, owned("已绑定鼠标左键（尚未保存）"));
            },
            EditorEvent::AdvancedOpened { index, text } => {
                self.advanced_edit = Some((index, text));
                self.status = owned("正在编辑脚本 / 高级参数");
            },
            EditorEvent::AdvancedOpenFailed(e) => {
                self.status = prefixed("无法打开高级编辑器：", e.as_str());
            },
            EditorEvent::Deleted(index) => {
                if remove_button(&mut self.current, index) {
                    self.selected = None;
                    self.dragging = None;
                    self.needs_rebuild = true;
                    self.dirty = true;
                    self.status = owned("已删除按键（尚未保存）");
                }
            },
            EditorEvent::CaptureCancelled => {
                self.capturing_binding = false;
                self.status = owned("已取消按键绑定");
            },
            EditorEvent::CaptureAborted => {
                self.capturing_binding = false;
            },
            EditorEvent::Captured { index, button, key } => {
                self.capturing_binding = false;
                if replace_button(&mut self.current, index, button) {
                    self.dirty = true;
                    self.status = joined("已绑定 ", key.as_str(), "（尚未保存）");
                }
            },
            EditorEvent::AdvancedCancelled => {
                self.advanced_edit = None;
                self.status = owned("已取消高级参数编辑");
            },
            EditorEvent::AdvancedApplied { index, button } => {
                if replace_button(&mut self.current, index, button) {
                    self.advanced_edit = None;
                    self.dirty = true;
                    self.needs_rebuild = true;
                    self.status = owned("高级参数已应用（尚未保存）");
                }
            },
            EditorEvent::AdvancedRejected { index, button, error } => {
                if replace_button(&mut self.current, index, button) {
                    self.status = prefixed("参数校验失败：", error.as_str());
                }
            },
            EditorEvent::AdvancedSyntaxError(e) => {
                self.status = prefixed("JSON 格式错误：", e.as_str());
            },
            EditorEvent::Added { kind, button } => {
                match append_button(&mut self.current, button) {
                    Some(index) => {
                        self.selected = Some(index);
                        self.dirty = true;
                        self.needs_rebuild = true;
                        self.status = joined("已添加 ", kind.as_str(), "（尚未保存）");
                    },
                    None => {},
                }
            },
        }
    }

    /// The file name shown above the canvas, marked with `*` while there are
    /// unsaved changes.
    pub fn file_label(&self) -> (r: String)
        ensures
            r@ == if self.dirty {
                self.file@ + "  *"@
            } else {
                self.file@
            },
    {
        if self.dirty {
            prefixed(self.file.as_str(), "  *")
        } else {
            self.file.clone()
        }
    }
}

/// Restore always leaves the editor on a copy of the saved document with
/// no unsaved changes and nothing selected or dragged.
pub proof fn law_restore_returns_to_saved<B: Clone>(s: EditorState<B>, t: EditorState<B>)
    requires
        editor_step(s, EditorEvent::Restored, t),
    ensures
        copied(s.saved, t.current),
        t.saved == s.saved,
        !t.dirty,
        t.selected is None,
        t.dragging is None,
{
}

/// Where cloning a button copies it exactly, restore gives back exactly
/// the saved document: the edits made since the last load or save are
/// undone.
pub proof fn law_restore_undoes_edits<B: Clone>(s: EditorState<B>, t: EditorState<B>)
    requires
        editor_step(s, EditorEvent::Restored, t),
        forall|a: B, b: B| #[trigger] vstd::pervasive::cloned(a, b) ==> a == b,
    ensures
        t.current.header == s.saved.header,
        t.current.button_list() == s.saved.button_list(),
        t.saved == s.saved,
        !t.dirty,
        t.needs_rebuild,
        t.selected is None,
        t.dragging is None,
{
    assert(vstd::pervasive::cloned(s.saved.header, t.current.header));
    if let Some(x) = s.saved.buttons {
        let y = t.current.buttons.unwrap();
        assert forall|i: int| 0 <= i < x@.len() implies x@[i] == y@[i] by {
            assert(vstd::pervasive::cloned(x@[i], y@[i]));
        }
        assert(x@ =~= y@);
    }
}

/// After a save, the saved document is a copy of the edited one and there
/// are no unsaved changes; a restore right after it returns to that copy.
pub proof fn law_save_then_restore<B: Clone>(
    s: EditorState<B>,
    t: EditorState<B>,
    u: EditorState<B>,
)
    requires
        editor_step(s, EditorEvent::Saved, t),
        editor_step(t, EditorEvent::Restored, u),
    ensures
        !t.dirty,
        copied(s.current, t.saved),
        copied(t.saved, u.current),
        !u.dirty,
{
}

/// The saved document changes only when the edited one is saved or a
/// document is loaded; every other event keeps it.
pub proof fn law_saved_changes_only_on_save_or_load<B: Clone>(
    s: EditorState<B>,
    event: EditorEvent<B>,
    t: EditorState<B>,
)
    requires
        editor_step(s, event, t),
        !(event is Saved || event is Opened || event is Reloaded || event is Switched),
    ensures
        t.saved == s.saved,
        t.file == s.file,
{
}

/// Unsaved changes are forgotten only by saving, restoring, or loading a
/// document.
pub proof fn law_dirty_cleared_only_by_save_or_load<B: Clone>(
    s: EditorState<B>,
    event: EditorEvent<B>,
    t: EditorState<B>,
)
    requires
        editor_step(s, event, t),
        s.dirty,
        !(event is Saved || event is Restored || event is Opened || event is Reloaded
            || event is Switched),
    ensures
        t.dirty,
{
}

/// The button that an edit event names, if it names one.
pub open spec fn edited_index<B>(event: EditorEvent<B>) -> Option<usize> {
    match event {
        EditorEvent::Moved { index, .. } => Some(index),
        EditorEvent::PropertyAdjusted { index, .. } => Some(index),
        EditorEvent::DirectionPadBound { index, .. } => Some(index),
        EditorEvent::MouseLeftBound { index, .. } => Some(index),
        EditorEvent::Captured { index, .. } => Some(index),
        EditorEvent::AdvancedApplied { index, .. } => Some(index),
        EditorEvent::Deleted(index) => Some(index),
        _ => None,
    }
}

/// Every change to the edited document's buttons marks it unsaved: an
/// edit of an existing button, and an added button.
pub proof fn law_edits_mark_dirty<B: Clone>(s: EditorState<B>, event: EditorEvent<B>, t: EditorState<B>)
    requires
        editor_step(s, event, t),
        (edited_index(event) matches Some(i) && has_button(s.current, i as int)) || (event is Added
            && s.current.buttons is Some),
    ensures
        t.dirty,
{
}

/// An edit of one button changes that button only: every other button
/// keeps its place and content, and the rest of the document is kept.
pub proof fn law_edit_touches_one_button<B: Clone>(
    s: EditorState<B>,
    event: EditorEvent<B>,
    t: EditorState<B>,
    j: int,
)
    requires
        editor_step(s, event, t),
        edited_index(event) matches Some(i) && i != j,
        !(event is Deleted),
        has_button(s.current, j),
    ensures
        t.current.header == s.current.header,
        has_button(t.current, j),
        t.current.buttons.unwrap()@[j] == s.current.buttons.unwrap()@[j],
{
}

/// Every event that loads a document (a file picked in the list, the open
/// file read again from disk, another file switched to) makes the loaded
/// document the saved one and a copy of it the edited one, with no unsaved
/// changes and nothing selected; whatever was edited before is dropped.
pub proof fn law_load_takes_the_loaded_document<B: Clone>(
    s: EditorState<B>,
    event: EditorEvent<B>,
    t: EditorState<B>,
)
    requires
        editor_step(s, event, t),
    ensures
        match event {
            EditorEvent::Opened { file, value } => t.file == file && t.saved == value && copied(value, t.current)
                && !t.dirty && t.selected is None,
            EditorEvent::Reloaded(value) => t.file == s.file && t.saved == value && copied(value, t.current)
                && !t.dirty && t.selected is None && t.dragging is None,
            EditorEvent::Switched { file, value } => t.file == file && t.saved == value && copied(
                value,
                t.current,
            ) && !t.dirty && t.selected is None && t.dragging is None,
            _ => true,
        },
{
}

/// Where cloning a button copies it exactly, reading the open file again
/// leaves exactly the re-read document both saved and edited, whatever was
/// edited before.
pub proof fn law_reload_replaces_the_edits<B: Clone>(s: EditorState<B>, value: MappingDoc<B>, t: EditorState<B>)
    requires
        editor_step(s, EditorEvent::Reloaded(value), t),
        forall|a: B, b: B| #[trigger] vstd::pervasive::cloned(a, b) ==> a == b,
    ensures
        t.saved == value,
        t.current.header == value.header,
        t.current.button_list() == value.button_list(),
        !t.dirty,
{
    assert(vstd::pervasive::cloned(value.header, t.current.header));
    if let Some(x) = value.buttons {
        let y = t.current.buttons.unwrap();
        assert forall|i: int| 0 <= i < x@.len() implies x@[i] == y@[i] by {
            assert(vstd::pervasive::cloned(x@[i], y@[i]));
        }
        assert(x@ =~= y@);
    }
}

} // verus!
