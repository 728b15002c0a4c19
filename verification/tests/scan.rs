use nkro_keyboard::keycodes::KeyCode;
use nkro_keyboard::layout::bitmap_to_report;
use nkro_keyboard::layout::lookup;
use nkro_keyboard::scanner::ScanBuilder;

#[test]
fn key_codes_match_hid_usages() {
    assert_eq!(KeyCode::A.code(), 0x04);
    assert_eq!(KeyCode::Z.code(), 0x1D);
    assert_eq!(KeyCode::Kb1.code(), 0x1E);
    assert_eq!(KeyCode::Kb0.code(), 0x27);
    assert_eq!(KeyCode::Enter.code(), 0x28);
    assert_eq!(KeyCode::Slash.code(), 0x38);
    assert_eq!(KeyCode::LCtrl.code(), 0xE0);
    assert_eq!(KeyCode::RGui.code(), 0xE7);
    assert_eq!(KeyCode::No.code(), 0);
    assert_eq!(KeyCode::FnKey.code(), 0);
}

#[test]
fn exactly_the_eight_modifiers_are_modifiers() {
    let modifiers = [
        KeyCode::LCtrl,
        KeyCode::LShift,
        KeyCode::LAlt,
        KeyCode::LGui,
        KeyCode::RCtrl,
        KeyCode::RShift,
        KeyCode::RAlt,
        KeyCode::RGui,
    ];
    for (bit, m) in modifiers.iter().enumerate() {
        assert!(m.is_modifier());
        assert_eq!(m.modifier_bit(), bit as u8);
        assert_eq!(m.as_modifier_bit(), 1u8 << bit);
    }
    assert!(!KeyCode::A.is_modifier());
    assert!(!KeyCode::No.is_modifier());
    assert!(!KeyCode::FnKey.is_modifier());
    assert!(!KeyCode::Space.is_modifier());
}

#[test]
fn layout_spot_checks() {
    assert_eq!(lookup(0, 0), KeyCode::Escape);
    assert_eq!(lookup(0, 14), KeyCode::Grave);
    assert_eq!(lookup(1, 0), KeyCode::Tab);
    assert_eq!(lookup(2, 0), KeyCode::LCtrl);
    assert_eq!(lookup(2, 12), KeyCode::Enter);
    assert_eq!(lookup(3, 12), KeyCode::FnKey);
    assert_eq!(lookup(4, 5), KeyCode::Space);
    assert_eq!(lookup(4, 14), KeyCode::No);
}

#[test]
fn strobe_levels_follow_binary_addressing() {
    let mut builder = ScanBuilder::new();
    for col in 0..15usize {
        let levels = builder.strobe_levels();
        assert_eq!(levels.len(), 15);
        for (line, level) in levels.iter().enumerate() {
            assert_eq!(*level, (col >> line) & 1 == 1);
        }
        let readings = [false; 5];
        builder.record_column(&readings);
    }
}

#[test]
fn builder_progress_is_visible() {
    let mut builder = ScanBuilder::new();
    assert_eq!(builder.columns_recorded(), 0);
    assert!(!builder.is_complete());
    for col in 0..15usize {
        assert_eq!(builder.columns_recorded(), col);
        builder.record_column(&[false; 5]);
    }
    assert!(builder.is_complete());
    assert_eq!(builder.columns_recorded(), 15);
}

#[test]
fn recorded_columns_come_back_in_the_bitmap() {
    let mut builder = ScanBuilder::new();
    for col in 0..15usize {
        let mut readings = [false; 5];
        for (row, r) in readings.iter_mut().enumerate() {
            *r = (row + col) % 3 == 0;
        }
        builder.record_column(&readings);
    }
    let bitmap = builder.finish();
    for (row, cells) in bitmap.iter().enumerate() {
        for (col, cell) in cells.iter().enumerate() {
            assert_eq!(*cell, (row + col) % 3 == 0);
        }
    }
}

#[test]
fn full_scan_to_report_flow() {
    // Record a scan in which only cell (2, 1) — the 'A' key — reads
    // pressed, and encode the finished bitmap.
    let mut builder = ScanBuilder::new();
    for col in 0..15usize {
        let mut readings = [false; 5];
        if col == 1 {
            readings[2] = true;
        }
        builder.record_column(&readings);
    }
    let bitmap = builder.finish();
    let r = bitmap_to_report(&bitmap);
    assert_eq!(r.modifier, 0);
    assert_eq!(r.keys[0], 0x10);
    assert_eq!(r.fake_boot, [4, 0, 0, 0, 0, 0]);
}
