use jx_keymapper::mapping::{
    check_deletable, cycle_random_algorithm, derived_prefix, edit_buffer, first_mapping_file,
    hex8_text, mapping_short_label, mapping_stem, next_pointer_id, random_mapping_id,
    unique_mapping_file, active_after_rename, EditorKey,
};
use std::cell::RefCell;

#[test]
fn pointer_ids_fill_the_first_gap() {
    assert_eq!(next_pointer_id(&[]), 1);
    assert_eq!(next_pointer_id(&[1, 2, 4]), 3);
    assert_eq!(next_pointer_id(&[0, 2]), 1);
    let all: Vec<u64> = (1..=31).collect();
    assert_eq!(next_pointer_id(&all), 31);
    let most: Vec<u64> = (1..=30).collect();
    assert_eq!(next_pointer_id(&most), 31);
    // Ids are read as 32-bit numbers: 2^32 + 1 counts as 1.
    assert_eq!(next_pointer_id(&[(1u64 << 32) + 1]), 2);
}

#[test]
fn random_algorithm_cycle() {
    assert_eq!(cycle_random_algorithm(Some("ExtremeRandom")), "Bezier");
    assert_eq!(cycle_random_algorithm(Some("Bezier")), "Linear");
    assert_eq!(cycle_random_algorithm(Some("Linear")), "Sine");
    assert_eq!(cycle_random_algorithm(Some("Sine")), "RandomWalk");
    assert_eq!(cycle_random_algorithm(Some("RandomWalk")), "ExtremeRandom");
    assert_eq!(cycle_random_algorithm(Some("Unknown")), "Bezier");
    assert_eq!(cycle_random_algorithm(None), "Linear");
}

#[test]
fn button_labels() {
    let bind = vec![Some("KeyW".to_string()), None, Some("M-Left".to_string())];
    assert_eq!(mapping_short_label(Some("SingleTap"), Some(&bind)), "单击\nKeyW+M-Left");
    assert_eq!(mapping_short_label(Some("Fps"), Some(&vec![])), "FPS\n未绑定");
    assert_eq!(mapping_short_label(Some("Custom"), None), "Custom\n未绑定");
    assert_eq!(mapping_short_label(None, Some(&vec![None])), "按键\n未绑定");
    assert_eq!(mapping_short_label(Some("DirectionPad"), None), "方向盘\n未绑定");
}

#[test]
fn file_stems() {
    assert_eq!(mapping_stem("default.json"), "default");
    assert_eq!(mapping_stem("a.json.json"), "a");
    assert_eq!(mapping_stem("readme.txt"), "readme.txt");
    assert_eq!(mapping_stem(".json"), "");
    assert_eq!(derived_prefix("default.json", "-copy"), "default-copy");
}

#[test]
fn unique_names_skip_taken_ones() {
    let taken = ["new-mapping-1.json", "new-mapping-2.json"];
    let probed = RefCell::new(Vec::new());
    let name = unique_mapping_file("new-mapping", |candidate: &String| {
        probed.borrow_mut().push(candidate.clone());
        taken.contains(&candidate.as_str())
    });
    assert_eq!(name, "new-mapping-3.json");
    assert_eq!(probed.borrow().len(), 3);
    assert_eq!(unique_mapping_file("x", |_: &String| false), "x-1.json");
}

#[test]
fn unique_name_falls_back_to_random_hex() {
    let name = unique_mapping_file("p", |_: &String| true);
    assert!(name.starts_with("p-") && name.ends_with(".json"));
    let hex = &name[2..name.len() - 5];
    assert_eq!(hex.len(), 8);
    assert!(hex.chars().all(|c| c.is_ascii_hexdigit() && !c.is_ascii_uppercase()));
}

#[test]
fn hex_ids() {
    assert_eq!(hex8_text(0).into_iter().collect::<String>(), "00000000");
    assert_eq!(hex8_text(0xdeadBEEF).into_iter().collect::<String>(), "deadbeef");
    assert_eq!(hex8_text(255).into_iter().collect::<String>(), format!("{:08x}", 255));
    assert_eq!(random_mapping_id().len(), 8);
}

#[test]
fn first_json_file_in_name_order() {
    let names: Vec<String> =
        ["b.json", "notes.txt", ".json", "a.json", "Z.json"].iter().map(|s| s.to_string()).collect();
    assert_eq!(first_mapping_file(&names).as_deref(), Some("Z.json"));
    let none: Vec<String> = ["x.txt", ".json"].iter().map(|s| s.to_string()).collect();
    assert_eq!(first_mapping_file(&none), None);
}

#[test]
fn active_mapping_cannot_be_deleted() {
    assert_eq!(
        check_deletable("default.json", "default.json").unwrap_err(),
        "当前启用的映射不能删除，请先启用其他配置"
    );
    assert!(check_deletable("default.json", "other.json").is_ok());
}

#[test]
fn advanced_editor_keys() {
    let mut buffer = "{\"a\": 1}".to_string();
    let keys = vec![
        EditorKey::Backspace,
        EditorKey::Enter,
        EditorKey::Tab,
        EditorKey::Text(Some("}".to_string())),
        EditorKey::Text(None),
    ];
    assert!(!edit_buffer(&mut buffer, &keys));
    assert_eq!(buffer, "{\"a\": 1\n  }");
    let mut empty = String::new();
    let keys = vec![EditorKey::Backspace, EditorKey::Text(Some("x".to_string())), EditorKey::Escape, EditorKey::Text(Some("y".to_string()))];
    assert!(edit_buffer(&mut empty, &keys));
    assert_eq!(empty, "x");
}

use jx_keymapper::mapping::{capture_step, property_effect, CaptureOutcome, NumericField, PropertyAction, PropertyEffect};

#[test]
fn property_panel_effects() {
    assert_eq!(property_effect(None, Some(3), Some(PropertyAction::Delete), None), PropertyEffect::Ignore);
    assert_eq!(property_effect(Some(1), Some(3), None, None), PropertyEffect::Ignore);
    assert_eq!(property_effect(Some(3), Some(3), Some(PropertyAction::Delete), None), PropertyEffect::Ignore);
    assert_eq!(property_effect(Some(0), None, Some(PropertyAction::Delete), None), PropertyEffect::Ignore);
    assert_eq!(property_effect(Some(2), Some(3), Some(PropertyAction::Delete), None), PropertyEffect::Delete(2));
    assert_eq!(
        property_effect(Some(0), Some(1), Some(PropertyAction::CaptureBinding), Some("DirectionPad")),
        PropertyEffect::BindDirectionPadWasd(0)
    );
    assert_eq!(
        property_effect(Some(0), Some(1), Some(PropertyAction::CaptureBinding), Some("SingleTap")),
        PropertyEffect::StartCapture
    );
    assert_eq!(
        property_effect(Some(0), Some(1), Some(PropertyAction::SizeDown), None),
        PropertyEffect::Adjust { index: 0, field: NumericField::ButtonSize, delta: -8, min: 24, max: 320 }
    );
    assert_eq!(
        property_effect(Some(0), Some(1), Some(PropertyAction::RandomYUp), None),
        PropertyEffect::Adjust { index: 0, field: NumericField::RandomOffsetY, delta: 1, min: 0, max: 200 }
    );
    assert_eq!(property_effect(Some(0), Some(1), Some(PropertyAction::BindMouseLeft), None), PropertyEffect::BindMouseLeft(0));
    assert_eq!(property_effect(Some(0), Some(1), Some(PropertyAction::AdvancedEdit), None), PropertyEffect::OpenAdvanced(0));
    assert_eq!(property_effect(Some(0), Some(1), Some(PropertyAction::CycleRandomAlgorithm), None), PropertyEffect::CycleAlgorithm(0));
}

#[test]
fn key_capture_steps() {
    assert_eq!(capture_step(false, Some(false), Some(0), true), CaptureOutcome::Wait);
    assert_eq!(capture_step(true, None, Some(0), true), CaptureOutcome::Wait);
    assert_eq!(capture_step(true, Some(true), Some(0), true), CaptureOutcome::Cancelled);
    assert_eq!(capture_step(true, Some(false), None, true), CaptureOutcome::Aborted);
    assert_eq!(capture_step(true, Some(false), Some(4), false), CaptureOutcome::Aborted);
    assert_eq!(capture_step(true, Some(false), Some(4), true), CaptureOutcome::Bind(4));
}

#[test]
fn active_file_follows_its_rename() {
    assert_eq!(active_after_rename("a.json", "a.json", "a-renamed.json"), "a-renamed.json");
    assert_eq!(active_after_rename("b.json", "a.json", "a-renamed.json"), "b.json");
}
