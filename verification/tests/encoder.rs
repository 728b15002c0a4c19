use nkro_keyboard::keycodes::KeyCode;
use nkro_keyboard::layout::bitmap_to_report;
use nkro_keyboard::layout::lookup;
use nkro_keyboard::nkro::fake_boot_push;
use nkro_keyboard::nkro::NKROReport;

fn empty_bitmap() -> [[bool; 15]; 5] {
    [[false; 15]; 5]
}

#[test]
fn new_report_is_all_zero() {
    let r = NKROReport::new();
    assert_eq!(r.modifier, 0);
    assert_eq!(r.reserved, 0);
    assert_eq!(r.leds, 0);
    assert_eq!(r.fake_boot, [0u8; 6]);
    assert_eq!(r.keys, [0u8; 15]);
}

#[test]
fn empty_bitmap_encodes_to_empty_report() {
    let r = bitmap_to_report(&empty_bitmap());
    assert_eq!(r.modifier, 0);
    assert_eq!(r.reserved, 0);
    assert_eq!(r.leds, 0);
    assert_eq!(r.fake_boot, [0u8; 6]);
    assert_eq!(r.keys, [0u8; 15]);
}

#[test]
fn single_letter_scenario() {
    // Cell (2, 1) holds 'A' (usage code 4): exactly that cell pressed
    // yields bit 4 of keys byte 0, no modifier, 'A' first in fake_boot.
    assert_eq!(lookup(2, 1), KeyCode::A);
    let mut bitmap = empty_bitmap();
    bitmap[2][1] = true;
    let r = bitmap_to_report(&bitmap);
    assert_eq!(r.modifier, 0);
    assert_eq!(r.keys[(4usize >> 3)], 1u8 << (4 & 7));
    for (bi, byte) in r.keys.iter().enumerate() {
        if bi != 0 {
            assert_eq!(*byte, 0);
        }
    }
    assert_eq!(r.keys[0], 0x10);
    assert_eq!(r.fake_boot, [4, 0, 0, 0, 0, 0]);
}

#[test]
fn encoding_is_deterministic() {
    let mut bitmap = empty_bitmap();
    bitmap[0][3] = true;
    bitmap[2][1] = true;
    bitmap[3][0] = true;
    let r1 = bitmap_to_report(&bitmap);
    let r2 = bitmap_to_report(&bitmap);
    assert_eq!(r1, r2);
}

#[test]
fn each_layout_modifier_alone_sets_exactly_its_bit() {
    // (row, col, expected modifier byte) for every modifier in the layout.
    let cases: [(usize, usize, u8); 7] = [
        (2, 0, 0x01),  // left ctrl, bit 0
        (3, 0, 0x02),  // left shift, bit 1
        (4, 0, 0x04),  // left alt, bit 2
        (4, 1, 0x08),  // left gui, bit 3
        (3, 11, 0x20), // right shift, bit 5
        (4, 10, 0x40), // right alt, bit 6
        (4, 9, 0x80),  // right gui, bit 7
    ];
    for (row, col, mask) in cases {
        let mut bitmap = empty_bitmap();
        bitmap[row][col] = true;
        let r = bitmap_to_report(&bitmap);
        assert_eq!(r.modifier, mask);
        assert_eq!(r.keys, [0u8; 15]);
        assert_eq!(r.fake_boot, [0u8; 6]);
    }
}

#[test]
fn modifiers_do_not_enter_keys_or_fake_boot() {
    let mut bitmap = empty_bitmap();
    bitmap[2][0] = true; // left ctrl
    bitmap[3][0] = true; // left shift
    bitmap[2][1] = true; // 'A'
    let r = bitmap_to_report(&bitmap);
    assert_eq!(r.modifier, 0x03);
    assert_eq!(r.keys[0], 0x10);
    assert_eq!(r.fake_boot, [4, 0, 0, 0, 0, 0]);
}

#[test]
fn keys_bitmap_is_exact_over_several_keys() {
    let mut bitmap = empty_bitmap();
    bitmap[0][0] = true; // escape, code 41: byte 5, bit 1
    bitmap[1][1] = true; // 'Q', code 20: byte 2, bit 4
    bitmap[4][5] = true; // space, code 44: byte 5, bit 4
    let r = bitmap_to_report(&bitmap);
    let mut expected = [0u8; 15];
    expected[41 >> 3] |= 1 << (41 & 7);
    expected[20 >> 3] |= 1 << (20 & 7);
    expected[44 >> 3] |= 1 << (44 & 7);
    assert_eq!(r.keys, expected);
    assert_eq!(r.keys[5], (1 << 1) | (1 << 4));
    assert_eq!(r.modifier, 0);
}

#[test]
fn seven_keys_evict_the_oldest_from_fake_boot() {
    // Row-major replay records row 0 columns 0..=6 in order:
    // escape (41), then digits 1..=6 (codes 30..=35). The buffer keeps
    // the six most recent: escape is evicted.
    let mut bitmap = empty_bitmap();
    for col in 0..7usize {
        bitmap[0][col] = true;
    }
    let r = bitmap_to_report(&bitmap);
    assert_eq!(r.fake_boot, [30, 31, 32, 33, 34, 35]);
    // The full bitmap still carries all seven keys.
    assert_eq!(r.keys[41 >> 3] & (1 << (41 & 7)), 1 << (41 & 7));
    for code in 30u8..=35u8 {
        let byte = (code >> 3) as usize;
        assert_ne!(r.keys[byte] & (1 << (code & 7)), 0);
    }
}

#[test]
fn six_keys_fill_fake_boot_in_order() {
    let mut bitmap = empty_bitmap();
    for col in 1..7usize {
        bitmap[0][col] = true; // digits 1..=6, codes 30..=35
    }
    let r = bitmap_to_report(&bitmap);
    assert_eq!(r.fake_boot, [30, 31, 32, 33, 34, 35]);
}

#[test]
fn unassigned_and_function_cells_are_suppressed() {
    assert_eq!(lookup(1, 14), KeyCode::No);
    assert_eq!(lookup(3, 12), KeyCode::FnKey);
    let mut bitmap = empty_bitmap();
    bitmap[1][14] = true;
    bitmap[3][12] = true;
    let r = bitmap_to_report(&bitmap);
    assert_eq!(r, bitmap_to_report(&empty_bitmap()));
    assert_eq!(r.modifier, 0);
    assert_eq!(r.keys, [0u8; 15]);
    assert_eq!(r.fake_boot, [0u8; 6]);
}

#[test]
fn fake_boot_push_fills_first_empty_slot() {
    assert_eq!(fake_boot_push([0; 6], 10), [10, 0, 0, 0, 0, 0]);
    assert_eq!(fake_boot_push([10, 0, 0, 0, 0, 0], 7), [10, 7, 0, 0, 0, 0]);
}

#[test]
fn fake_boot_push_is_idempotent_on_recorded_key() {
    assert_eq!(fake_boot_push([10, 0, 0, 0, 0, 0], 10), [10, 0, 0, 0, 0, 0]);
    assert_eq!(fake_boot_push([1, 2, 3, 4, 5, 6], 3), [1, 2, 3, 4, 5, 6]);
}

#[test]
fn fake_boot_push_evicts_oldest_when_full() {
    assert_eq!(fake_boot_push([1, 2, 3, 4, 5, 6], 9), [2, 3, 4, 5, 6, 9]);
}

#[test]
fn rescanning_unchanged_state_changes_nothing() {
    let mut bitmap = empty_bitmap();
    for col in 1..7usize {
        bitmap[0][col] = true;
    }
    bitmap[2][0] = true;
    let first = bitmap_to_report(&bitmap);
    let second = bitmap_to_report(&bitmap);
    assert_eq!(first, second);
    assert_eq!(second.fake_boot, [30, 31, 32, 33, 34, 35]);
}
