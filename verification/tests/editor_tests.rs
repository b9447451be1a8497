use jx_keymapper::editor::{EditorEvent, EditorState, MappingDoc};

fn doc(header: &str, buttons: &[&str]) -> MappingDoc<String> {
    MappingDoc {
        header: header.to_string(),
        buttons: Some(buttons.iter().map(|b| b.to_string()).collect()),
    }
}

fn names(d: &MappingDoc<String>) -> Vec<&str> {
    d.buttons.as_ref().unwrap().iter().map(String::as_str).collect()
}

fn editor() -> EditorState<String> {
    EditorState::new("default.json".to_string(), doc("size", &["a", "b", "c"]))
}

#[test]
fn new_editor() {
    let e = editor();
    assert_eq!(e.file, "default.json");
    assert_eq!(e.current.header, "size");
    assert_eq!(names(&e.current), vec!["a", "b", "c"]);
    assert_eq!(names(&e.saved), vec!["a", "b", "c"]);
    assert!(e.show_guides && !e.dirty && !e.needs_rebuild);
    assert_eq!(e.status, "拖动按键可调整位置；右侧可调整大小与随机偏移。");
    assert_eq!(e.file_label(), "default.json");
}

#[test]
fn edits_then_restore() {
    let mut e = editor();
    e.apply(EditorEvent::NodePressed(2));
    assert_eq!((e.selected, e.dragging), (Some(2), Some(2)));
    e.apply(EditorEvent::Moved { index: 2, button: "c@1,2".to_string(), text: "位置：1, 2（尚未保存）".to_string() });
    assert!(e.dirty);
    assert_eq!(names(&e.current), vec!["a", "b", "c@1,2"]);
    assert_eq!(e.status, "位置：1, 2（尚未保存）");
    assert_eq!(e.file_label(), "default.json  *");
    e.apply(EditorEvent::PointerReleased);
    assert_eq!(e.dragging, None);
    assert_eq!(e.selected, Some(2));
    e.apply(EditorEvent::Restored);
    assert_eq!(names(&e.current), vec!["a", "b", "c"]);
    assert!(!e.dirty && e.needs_rebuild && e.selected.is_none());
    assert_eq!(e.status, "已还原到上次保存状态");
}

#[test]
fn save_keeps_edits() {
    let mut e = editor();
    e.apply(EditorEvent::PropertyAdjusted { index: 0, button: "a+8".to_string() });
    assert_eq!(e.status, "按键参数已修改（尚未保存）");
    e.apply(EditorEvent::Saved);
    assert_eq!(names(&e.saved), vec!["a+8", "b", "c"]);
    assert!(!e.dirty);
    assert_eq!(e.status, "已保存并通过校验：default.json");
    e.apply(EditorEvent::SaveFailed("磁盘已满".to_string()));
    assert_eq!(e.status, "保存失败：磁盘已满");
}

#[test]
fn opening_and_switching_files() {
    let mut e = editor();
    e.apply(EditorEvent::NodePressed(1));
    e.apply(EditorEvent::Opened { file: "b.json".to_string(), value: doc("B", &["x"]) });
    assert_eq!((e.file.as_str(), e.current.header.as_str(), e.saved.header.as_str()), ("b.json", "B", "B"));
    assert_eq!(names(&e.current), vec!["x"]);
    assert_eq!(e.selected, None);
    assert_eq!(e.dragging, Some(1));
    assert_eq!(e.status, "正在加载并启用映射：b.json");
    e.apply(EditorEvent::Switched { file: "c.json".to_string(), value: doc("C", &[]) });
    assert_eq!(e.dragging, None);
    assert_eq!(e.status, "正在编辑：c.json");
    e.apply(EditorEvent::ManageFailed("重命名失败：x".to_string()));
    assert_eq!(e.status, "重命名失败：x");
    e.apply(EditorEvent::OpenFailed("x".to_string()));
    assert_eq!(e.status, "无法打开映射：x");
}

#[test]
fn guides_and_background() {
    let mut e = editor();
    e.apply(EditorEvent::GuidesToggled);
    assert!(!e.show_guides);
    assert_eq!(e.status, "辅助范围已隐藏");
    e.apply(EditorEvent::GuidesToggled);
    assert_eq!(e.status, "辅助范围已显示");
    e.apply(EditorEvent::BackgroundUnavailable);
    assert_eq!(e.status, "刷新背景失败：没有已授权的 USB ADB 设备");
    e.apply(EditorEvent::BackgroundDecodeFailed("bad png".to_string()));
    assert_eq!(e.status, "背景图片解码失败：bad png");
    e.apply(EditorEvent::ActivateStarted);
    assert_eq!(e.status, "正在启用：default.json");
}

#[test]
fn binding_capture() {
    let mut e = editor();
    e.apply(EditorEvent::CaptureStarted);
    assert!(e.capturing_binding);
    e.apply(EditorEvent::Captured { index: 1, button: "b=KeyQ".to_string(), key: "KeyQ".to_string() });
    assert!(!e.capturing_binding && e.dirty);
    assert_eq!(names(&e.current), vec!["a", "b=KeyQ", "c"]);
    assert_eq!(e.status, "已绑定 KeyQ（尚未保存）");
    e.apply(EditorEvent::CaptureStarted);
    e.apply(EditorEvent::CaptureCancelled);
    assert_eq!(e.status, "已取消按键绑定");
}

#[test]
fn capture_on_missing_button_only_stops_waiting() {
    let mut e = editor();
    e.apply(EditorEvent::CaptureStarted);
    e.apply(EditorEvent::Captured { index: 9, button: "z".to_string(), key: "KeyQ".to_string() });
    assert!(!e.capturing_binding && !e.dirty);
    assert_eq!(names(&e.current), vec!["a", "b", "c"]);
    assert_eq!(e.status, "请按下要绑定的键盘按键；Esc 取消");
}

#[test]
fn advanced_editing_and_adding() {
    let mut e = editor();
    e.apply(EditorEvent::AdvancedOpened { index: 0, text: "{}".to_string() });
    assert_eq!(e.advanced_edit, Some((0, "{}".to_string())));
    e.apply(EditorEvent::AdvancedSyntaxError("EOF".to_string()));
    assert_eq!(e.status, "JSON 格式错误：EOF");
    e.apply(EditorEvent::AdvancedRejected { index: 0, button: "bad".to_string(), error: "x".to_string() });
    assert_eq!(e.status, "参数校验失败：x");
    assert_eq!(names(&e.current), vec!["bad", "b", "c"]);
    assert!(e.advanced_edit.is_some() && !e.dirty);
    e.apply(EditorEvent::AdvancedApplied { index: 0, button: "a2".to_string() });
    assert!(e.advanced_edit.is_none() && e.dirty && e.needs_rebuild);
    assert_eq!(names(&e.current), vec!["a2", "b", "c"]);
    e.apply(EditorEvent::Added { kind: "Fire".to_string(), button: "f".to_string() });
    assert_eq!(e.selected, Some(3));
    assert_eq!(names(&e.current), vec!["a2", "b", "c", "f"]);
    assert_eq!(e.status, "已添加 Fire（尚未保存）");
    e.apply(EditorEvent::Deleted(1));
    assert_eq!(e.selected, None);
    assert_eq!(names(&e.current), vec!["a2", "c", "f"]);
    assert_eq!(e.status, "已删除按键（尚未保存）");
}

#[test]
fn edits_without_a_button_list_change_nothing() {
    let mut e = EditorState::new(
        "x.json".to_string(),
        MappingDoc { header: "h".to_string(), buttons: None },
    );
    e.apply(EditorEvent::Added { kind: "Fire".to_string(), button: "f".to_string() });
    e.apply(EditorEvent::Deleted(0));
    e.apply(EditorEvent::MouseLeftBound { index: 0, button: "m".to_string() });
    assert!(e.current.buttons.is_none() && !e.dirty && e.selected.is_none());
    assert_eq!(e.status, "拖动按键可调整位置；右侧可调整大小与随机偏移。");
}

#[test]
fn restore_after_save_returns_to_saved_edits() {
    let mut e = editor();
    e.apply(EditorEvent::DirectionPadBound { index: 2, button: "wasd".to_string() });
    e.apply(EditorEvent::Saved);
    e.apply(EditorEvent::Deleted(0));
    assert!(e.dirty);
    e.apply(EditorEvent::Restored);
    assert_eq!(names(&e.current), vec!["a", "b", "wasd"]);
    assert!(!e.dirty);
}

#[test]
fn other_events_keep_saved_document_and_unsaved_changes() {
    let mut e = editor();
    e.apply(EditorEvent::MouseLeftBound { index: 0, button: "M-Left".to_string() });
    assert_eq!(e.status, "已绑定鼠标左键（尚未保存）");
    for event in [
        EditorEvent::GuidesToggled,
        EditorEvent::BackgroundRequested,
        EditorEvent::ActivateStarted,
        EditorEvent::CaptureStarted,
        EditorEvent::CaptureCancelled,
        EditorEvent::NodePressed(0),
        EditorEvent::PointerReleased,
        EditorEvent::FolderOpened,
    ] {
        e.apply(event);
        assert_eq!(names(&e.saved), vec!["a", "b", "c"]);
        assert!(e.dirty);
    }
}
