//! The fixed key layout and the bitmap-to-report encoder.
//!
//! [`layout_spec`] / [`lookup`] map a physical (row, column) cell of the
//! switch matrix to its [`KeyCode`]; the table is compiled in and never
//! changes. [`bitmap_to_report`] turns one scan's bitmap into the wire
//! report: modifier bits, the full NKRO key bitmap, and the fake-boot
//! rollover buffer, all derived from the same scan.

use vstd::prelude::*;

use crate::keycodes::KeyCode;
use crate::keycodes::lemma_modifier_bit_range;
use crate::keycodes::lemma_normal_code_range;
use crate::nkro::NKROReport;
use crate::nkro::empty_fake_boot;
use crate::nkro::fake_boot_push;
use crate::nkro::fb_push;
use crate::nkro::fb_push_seq;
use crate::nkro::fb_wf;
use crate::nkro::fb_window;
use crate::nkro::lemma_fb_fifo_window;
use crate::nkro::lemma_fb_push_seq_snoc;
use crate::nkro::keys_bit;
use crate::nkro::lemma_fb_push_wf;
use crate::nkro::lemma_keys_bits_eq;
use crate::nkro::lemma_keys_bits_zero;
use crate::nkro::lemma_keys_decompose;
use crate::nkro::lemma_keys_set_bit;
use crate::nkro::lemma_u8_bits_eq;
use crate::nkro::lemma_u8_bits_single;
use crate::nkro::lemma_u8_or_bit;
use crate::nkro::u8_bit;

verus! {

broadcast use vstd::array::group_array_axioms;

/// Number of sense rows of the matrix.
pub const NUM_ROWS: usize = 5;

/// Number of strobed columns of the matrix.
pub const NUM_COLS: usize = 15;

/// The key under matrix cell (`row`, `col`); `No` outside the table.
pub open spec fn layout_spec(row: int, col: int) -> KeyCode {
        if row == 0 {
            if col == 0 {
                KeyCode::Escape
            } else if col == 1 {
                KeyCode::Kb1
            } else if col == 2 {
                KeyCode::Kb2
            } else if col == 3 {
                KeyCode::Kb3
            } else if col == 4 {
                KeyCode::Kb4
            } else if col == 5 {
                KeyCode::Kb5
            } else if col == 6 {
                KeyCode::Kb6
            } else if col == 7 {
                KeyCode::Kb7
            } else if col == 8 {
                KeyCode::Kb8
            } else if col == 9 {
                KeyCode::Kb9
            } else if col == 10 {
                KeyCode::Kb0
            } else if col == 11 {
                KeyCode::Minus
            } else if col == 12 {
                KeyCode::Equal
            } else if col == 13 {
                KeyCode::Bslash
            } else if col == 14 {
                KeyCode::Grave
            } else {
                KeyCode::No
            }
        } else if row == 1 {
            if col == 0 {
                KeyCode::Tab
            } else if col == 1 {
                KeyCode::Q
            } else if col == 2 {
                KeyCode::W
            } else if col == 3 {
                KeyCode::E
            } else if col == 4 {
                KeyCode::R
            } else if col == 5 {
                KeyCode::T
            } else if col == 6 {
                KeyCode::Y
            } else if col == 7 {
                KeyCode::U
            } else if col == 8 {
                KeyCode::I
            } else if col == 9 {
                KeyCode::O
            } else if col == 10 {
                KeyCode::P
            } else if col == 11 {
                KeyCode::LBracket
            } else if col == 12 {
                KeyCode::RBracket
            } else if col == 13 {
                KeyCode::BSpace
            } else if col == 14 {
                KeyCode::No
            } else {
                KeyCode::No
            }
        } else if row == 2 {
            if col == 0 {
                KeyCode::LCtrl
            } else if col == 1 {
                KeyCode::A
            } else if col == 2 {
                KeyCode::S
            } else if col == 3 {
                KeyCode::D
            } else if col == 4 {
                KeyCode::F
            } else if col == 5 {
                KeyCode::G
            } else if col == 6 {
                KeyCode::H
            } else if col == 7 {
                KeyCode::J
            } else if col == 8 {
                KeyCode::K
            } else if col == 9 {
                KeyCode::L
            } else if col == 10 {
                KeyCode::SColon
            } else if col == 11 {
                KeyCode::Quote
            } else if col == 12 {
                KeyCode::Enter
            } else if col == 13 {
                KeyCode::No
            } else if col == 14 {
                KeyCode::No
            } else {
                KeyCode::No
            }
        } else if row == 3 {
            if col == 0 {
                KeyCode::LShift
            } else if col == 1 {
                KeyCode::Z
            } else if col == 2 {
                KeyCode::X
            } else if col == 3 {
                KeyCode::C
            } else if col == 4 {
                KeyCode::V
            } else if col == 5 {
                KeyCode::B
            } else if col == 6 {
                KeyCode::N
            } else if col == 7 {
                KeyCode::M
            } else if col == 8 {
                KeyCode::Comma
            } else if col == 9 {
                KeyCode::Dot
            } else if col == 10 {
                KeyCode::Slash
            } else if col == 11 {
                KeyCode::RShift
            } else if col == 12 {
                KeyCode::FnKey
            } else if col == 13 {
                KeyCode::No
            } else if col == 14 {
                KeyCode::No
            } else {
                KeyCode::No
            }
        } else if row == 4 {
            if col == 0 {
                KeyCode::LAlt
            } else if col == 1 {
                KeyCode::LGui
            } else if col == 2 {
                KeyCode::No
            } else if col == 3 {
                KeyCode::No
            } else if col == 4 {
                KeyCode::No
            } else if col == 5 {
                KeyCode::Space
            } else if col == 6 {
                KeyCode::No
            } else if col == 7 {
                KeyCode::No
            } else if col == 8 {
                KeyCode::No
            } else if col == 9 {
                KeyCode::RGui
            } else if col == 10 {
                KeyCode::RAlt
            } else if col == 11 {
                KeyCode::No
            } else if col == 12 {
                KeyCode::No
            } else if col == 13 {
                KeyCode::No
            } else if col == 14 {
                KeyCode::No
            } else {
                KeyCode::No
            }
        } else {
            KeyCode::No
        }
}

/// Stateless lookup of the key under matrix cell (`row`, `col`).
pub fn lookup(row: usize, col: usize) -> (k: KeyCode)
    requires
        row < 5,
        col < 15,
    ensures
        k == layout_spec(row as int, col as int),
{
        if row == 0 {
            if col == 0 {
                KeyCode::Escape
            } else if col == 1 {
                KeyCode::Kb1
            } else if col == 2 {
                KeyCode::Kb2
            } else if col == 3 {
                KeyCode::Kb3
            } else if col == 4 {
                KeyCode::Kb4
            } else if col == 5 {
                KeyCode::Kb5
            } else if col == 6 {
                KeyCode::Kb6
            } else if col == 7 {
                KeyCode::Kb7
            } else if col == 8 {
                KeyCode::Kb8
            } else if col == 9 {
                KeyCode::Kb9
            } else if col == 10 {
                KeyCode::Kb0
            } else if col == 11 {
                KeyCode::Minus
            } else if col == 12 {
                KeyCode::Equal
            } else if col == 13 {
                KeyCode::Bslash
            } else if col == 14 {
                KeyCode::Grave
            } else {
                KeyCode::No
            }
        } else if row == 1 {
            if col == 0 {
                KeyCode::Tab
            } else if col == 1 {
                KeyCode::Q
            } else if col == 2 {
                KeyCode::W
            } else if col == 3 {
                KeyCode::E
            } else if col == 4 {
                KeyCode::R
            } else if col == 5 {
                KeyCode::T
            } else if col == 6 {
                KeyCode::Y
            } else if col == 7 {
                KeyCode::U
            } else if col == 8 {
                KeyCode::I
            } else if col == 9 {
                KeyCode::O
            } else if col == 10 {
                KeyCode::P
            } else if col == 11 {
                KeyCode::LBracket
            } else if col == 12 {
                KeyCode::RBracket
            } else if col == 13 {
                KeyCode::BSpace
            } else if col == 14 {
                KeyCode::No
            } else {
                KeyCode::No
            }
        } else if row == 2 {
            if col == 0 {
                KeyCode::LCtrl
            } else if col == 1 {
                KeyCode::A
            } else if col == 2 {
                KeyCode::S
            } else if col == 3 {
                KeyCode::D
            } else if col == 4 {
                KeyCode::F
            } else if col == 5 {
                KeyCode::G
            } else if col == 6 {
                KeyCode::H
            } else if col == 7 {
                KeyCode::J
            } else if col == 8 {
                KeyCode::K
            } else if col == 9 {
                KeyCode::L
            } else if col == 10 {
                KeyCode::SColon
            } else if col == 11 {
                KeyCode::Quote
            } else if col == 12 {
                KeyCode::Enter
            } else if col == 13 {
                KeyCode::No
            } else if col == 14 {
                KeyCode::No
            } else {
                KeyCode::No
            }
        } else if row == 3 {
            if col == 0 {
                KeyCode::LShift
            } else if col == 1 {
                KeyCode::Z
            } else if col == 2 {
                KeyCode::X
            } else if col == 3 {
                KeyCode::C
            } else if col == 4 {
                KeyCode::V
            } else if col == 5 {
                KeyCode::B
            } else if col == 6 {
                KeyCode::N
            } else if col == 7 {
                KeyCode::M
            } else if col == 8 {
                KeyCode::Comma
            } else if col == 9 {
                KeyCode::Dot
            } else if col == 10 {
                KeyCode::Slash
            } else if col == 11 {
                KeyCode::RShift
            } else if col == 12 {
                KeyCode::FnKey
            } else if col == 13 {
                KeyCode::No
            } else if col == 14 {
                KeyCode::No
            } else {
                KeyCode::No
            }
        } else if row == 4 {
            if col == 0 {
                KeyCode::LAlt
            } else if col == 1 {
                KeyCode::LGui
            } else if col == 2 {
                KeyCode::No
            } else if col == 3 {
                KeyCode::No
            } else if col == 4 {
                KeyCode::No
            } else if col == 5 {
                KeyCode::Space
            } else if col == 6 {
                KeyCode::No
            } else if col == 7 {
                KeyCode::No
            } else if col == 8 {
                KeyCode::No
            } else if col == 9 {
                KeyCode::RGui
            } else if col == 10 {
                KeyCode::RAlt
            } else if col == 11 {
                KeyCode::No
            } else if col == 12 {
                KeyCode::No
            } else if col == 13 {
                KeyCode::No
            } else if col == 14 {
                KeyCode::No
            } else {
                KeyCode::No
            }
        } else {
            KeyCode::No
        }
}

/// Pressed cell (`i`, `j`) is a modifier whose designated bit is `b`.
pub open spec fn mod_contrib(input: [[bool; 15]; 5], i: int, j: int, b: u8) -> bool {
    &&& 0 <= i < 5
    &&& 0 <= j < 15
    &&& input[i][j]
    &&& layout_spec(i, j).is_modifier_spec()
    &&& layout_spec(i, j).modifier_bit_spec() == b
}

/// Pressed cell (`i`, `j`) is an ordinary key with usage code `k`.
pub open spec fn key_contrib(input: [[bool; 15]; 5], i: int, j: int, k: u8) -> bool {
    &&& 0 <= i < 5
    &&& 0 <= j < 15
    &&& input[i][j]
    &&& layout_spec(i, j).is_normal_spec()
    &&& layout_spec(i, j).code_spec() == k
}

/// Some cell among the first `n` in row-major order contributes
/// modifier bit `b`.
pub open spec fn mod_seen(input: [[bool; 15]; 5], n: int, b: u8) -> bool {
    exists|i: int, j: int| mod_contrib(input, i, j, b) && 15 * i + j < n
}

/// Some cell among the first `n` in row-major order contributes usage
/// code `k`.
pub open spec fn key_seen(input: [[bool; 15]; 5], n: int, k: u8) -> bool {
    exists|i: int, j: int| key_contrib(input, i, j, k) && 15 * i + j < n
}

/// The fake-boot buffer after replaying the first `n` cells of the
/// bitmap in row-major order, recording every pressed ordinary key.
pub open spec fn fb_fold(input: [[bool; 15]; 5], n: int) -> Seq<u8>
    decreases n,
{
    if n <= 0 {
        empty_fake_boot()
    } else {
        let prev = fb_fold(input, n - 1);
        let i = (n - 1) / 15;
        let j = (n - 1) % 15;
        if input[i][j] && layout_spec(i, j).is_normal_spec() {
            fb_push(prev, layout_spec(i, j).code_spec())
        } else {
            prev
        }
    }
}

/// Everything [`bitmap_to_report`] promises of its result: the reserved
/// byte and the LED slot are zero, a modifier bit is set iff some
/// pressed cell maps to that modifier, a bit of the 120-bit bitmap is
/// set iff some pressed cell maps to that usage code, and the fake-boot
/// buffer is the row-major replay of every pressed ordinary key.
pub open spec fn encode_rel(input: [[bool; 15]; 5], r: NKROReport) -> bool {
    &&& r.reserved == 0
    &&& r.leds == 0
    &&& forall|b: u8|
        b < 8 ==> (#[trigger] u8_bit(r.modifier, b) <==> exists|i: int, j: int|
            mod_contrib(input, i, j, b))
    &&& forall|k: u8|
        k < 120 ==> (#[trigger] keys_bit(r.keys, k) <==> exists|i: int, j: int|
            key_contrib(input, i, j, k))
    &&& r.fake_boot@ == fb_fold(input, 75)
}

/// A row-major index below 75 determines its cell.
proof fn lemma_cell_index_unique(i: int, j: int, i2: int, j2: int)
    requires
        0 <= j < 15,
        0 <= j2 < 15,
        15 * i2 + j2 == 15 * i + j,
    ensures
        i2 == i,
        j2 == j,
{
}

/// Unfolding one step of the fake-boot replay at cell (`i`, `j`).
proof fn lemma_fb_fold_step(input: [[bool; 15]; 5], i: int, j: int)
    requires
        0 <= i < 5,
        0 <= j < 15,
    ensures
        fb_fold(input, 15 * i + j + 1) == (if input[i][j] && layout_spec(i, j).is_normal_spec() {
            fb_push(fb_fold(input, 15 * i + j), layout_spec(i, j).code_spec())
        } else {
            fb_fold(input, 15 * i + j)
        }),
{
    let n = 15 * i + j + 1;
    vstd::arithmetic::div_mod::lemma_fundamental_div_mod_converse(n - 1, 15, i, j);
}

/// Passing a cell that contributes nothing extends no prefix predicate.
proof fn lemma_contrib_ext_none(input: [[bool; 15]; 5], i: int, j: int)
    requires
        0 <= i < 5,
        0 <= j < 15,
        forall|b: u8| !mod_contrib(input, i, j, b),
        forall|k: u8| !key_contrib(input, i, j, k),
    ensures
        forall|b: u8| #[trigger]
            mod_seen(input, 15 * i + j + 1, b) <==> mod_seen(input, 15 * i + j, b),
        forall|k: u8| #[trigger]
            key_seen(input, 15 * i + j + 1, k) <==> key_seen(input, 15 * i + j, k),
{
    let n = 15 * i + j;
    assert forall|b: u8| #[trigger]
        mod_seen(input, n + 1, b) <==> mod_seen(input, n, b) by {
        if mod_seen(input, n + 1, b) {
            let (i2, j2) = choose|i2: int, j2: int| mod_contrib(input, i2, j2, b) && 15 * i2 + j2
                < n + 1;
            if 15 * i2 + j2 == n {
                lemma_cell_index_unique(i, j, i2, j2);
                assert(false);
            }
            assert(mod_seen(input, n, b));
        }
        if mod_seen(input, n, b) {
            let (i2, j2) = choose|i2: int, j2: int| mod_contrib(input, i2, j2, b) && 15 * i2 + j2
                < n;
            assert(mod_contrib(input, i2, j2, b) && 15 * i2 + j2 < n + 1);
        }
    }
    assert forall|k: u8| #[trigger]
        key_seen(input, n + 1, k) <==> key_seen(input, n, k) by {
        if key_seen(input, n + 1, k) {
            let (i2, j2) = choose|i2: int, j2: int| key_contrib(input, i2, j2, k) && 15 * i2 + j2
                < n + 1;
            if 15 * i2 + j2 == n {
                lemma_cell_index_unique(i, j, i2, j2);
                assert(false);
            }
            assert(key_seen(input, n, k));
        }
        if key_seen(input, n, k) {
            let (i2, j2) = choose|i2: int, j2: int| key_contrib(input, i2, j2, k) && 15 * i2 + j2
                < n;
            assert(key_contrib(input, i2, j2, k) && 15 * i2 + j2 < n + 1);
        }
    }
}

/// Passing a cell that holds a pressed modifier with bit `b0` adds
/// exactly that bit to the prefix predicates.
proof fn lemma_contrib_ext_mod(input: [[bool; 15]; 5], i: int, j: int, b0: u8)
    requires
        0 <= i < 5,
        0 <= j < 15,
        mod_contrib(input, i, j, b0),
        forall|k: u8| !key_contrib(input, i, j, k),
    ensures
        forall|b: u8| #[trigger]
            mod_seen(input, 15 * i + j + 1, b) <==> (mod_seen(input, 15 * i + j, b) || b == b0),
        forall|k: u8| #[trigger]
            key_seen(input, 15 * i + j + 1, k) <==> key_seen(input, 15 * i + j, k),
{
    let n = 15 * i + j;
    assert forall|b: u8| #[trigger]
        mod_seen(input, n + 1, b) <==> (mod_seen(input, n, b) || b == b0) by {
        if mod_seen(input, n + 1, b) {
            let (i2, j2) = choose|i2: int, j2: int| mod_contrib(input, i2, j2, b) && 15 * i2 + j2
                < n + 1;
            if 15 * i2 + j2 == n {
                lemma_cell_index_unique(i, j, i2, j2);
                assert(b == b0);
            } else {
                assert(mod_seen(input, n, b));
            }
        }
        if mod_seen(input, n, b) {
            let (i2, j2) = choose|i2: int, j2: int| mod_contrib(input, i2, j2, b) && 15 * i2 + j2
                < n;
            assert(mod_contrib(input, i2, j2, b) && 15 * i2 + j2 < n + 1);
        }
        if b == b0 {
            assert(mod_contrib(input, i, j, b) && 15 * i + j < n + 1);
        }
    }
    assert forall|k: u8| #[trigger]
        key_seen(input, n + 1, k) <==> key_seen(input, n, k) by {
        if key_seen(input, n + 1, k) {
            let (i2, j2) = choose|i2: int, j2: int| key_contrib(input, i2, j2, k) && 15 * i2 + j2
                < n + 1;
            if 15 * i2 + j2 == n {
                lemma_cell_index_unique(i, j, i2, j2);
                assert(false);
            }
            assert(key_seen(input, n, k));
        }
        if key_seen(input, n, k) {
            let (i2, j2) = choose|i2: int, j2: int| key_contrib(input, i2, j2, k) && 15 * i2 + j2
                < n;
            assert(key_contrib(input, i2, j2, k) && 15 * i2 + j2 < n + 1);
        }
    }
}

/// Passing a cell that holds a pressed ordinary key with code `k0` adds
/// exactly that code to the prefix predicates.
proof fn lemma_contrib_ext_key(input: [[bool; 15]; 5], i: int, j: int, k0: u8)
    requires
        0 <= i < 5,
        0 <= j < 15,
        key_contrib(input, i, j, k0),
        forall|b: u8| !mod_contrib(input, i, j, b),
    ensures
        forall|k: u8| #[trigger]
            key_seen(input, 15 * i + j + 1, k) <==> (key_seen(input, 15 * i + j, k) || k == k0),
        forall|b: u8| #[trigger]
            mod_seen(input, 15 * i + j + 1, b) <==> mod_seen(input, 15 * i + j, b),
{
    let n = 15 * i + j;
    assert forall|k: u8| #[trigger]
        key_seen(input, n + 1, k) <==> (key_seen(input, n, k) || k == k0) by {
        if key_seen(input, n + 1, k) {
            let (i2, j2) = choose|i2: int, j2: int| key_contrib(input, i2, j2, k) && 15 * i2 + j2
                < n + 1;
            if 15 * i2 + j2 == n {
                lemma_cell_index_unique(i, j, i2, j2);
                assert(k == k0);
            } else {
                assert(key_seen(input, n, k));
            }
        }
        if key_seen(input, n, k) {
            let (i2, j2) = choose|i2: int, j2: int| key_contrib(input, i2, j2, k) && 15 * i2 + j2
                < n;
            assert(key_contrib(input, i2, j2, k) && 15 * i2 + j2 < n + 1);
        }
        if k == k0 {
            assert(key_contrib(input, i, j, k) && 15 * i + j < n + 1);
        }
    }
    assert forall|b: u8| #[trigger]
        mod_seen(input, n + 1, b) <==> mod_seen(input, n, b) by {
        if mod_seen(input, n + 1, b) {
            let (i2, j2) = choose|i2: int, j2: int| mod_contrib(input, i2, j2, b) && 15 * i2 + j2
                < n + 1;
            if 15 * i2 + j2 == n {
                lemma_cell_index_unique(i, j, i2, j2);
                assert(false);
            }
            assert(mod_seen(input, n, b));
        }
        if mod_seen(input, n, b) {
            let (i2, j2) = choose|i2: int, j2: int| mod_contrib(input, i2, j2, b) && 15 * i2 + j2
                < n;
            assert(mod_contrib(input, i2, j2, b) && 15 * i2 + j2 < n + 1);
        }
    }
}

/// Every row-major index below 75 names a cell of the matrix.
proof fn lemma_cell_of_index(n: int)
    requires
        0 <= n < 75,
    ensures
        0 <= n / 15 < 5,
        0 <= n % 15 < 15,
        n == 15 * (n / 15) + n % 15,
{
    vstd::arithmetic::div_mod::lemma_fundamental_div_mod(n, 15);
    vstd::arithmetic::div_mod::lemma_mod_bound(n, 15);
}

/// A bitmap whose pressed cells all map to sentinels or modifiers
/// leaves the fake-boot buffer empty.
proof fn lemma_fb_fold_no_normal(input: [[bool; 15]; 5], n: int)
    requires
        0 <= n <= 75,
        forall|i: int, j: int|
            0 <= i < 5 && 0 <= j < 15 && #[trigger] input[i][j] ==> !layout_spec(
                i,
                j,
            ).is_normal_spec(),
    ensures
        fb_fold(input, n) == empty_fake_boot(),
    decreases n,
{
    if n > 0 {
        lemma_cell_of_index(n - 1);
        lemma_fb_fold_no_normal(input, n - 1);
    }
}

/// Two bitmaps that agree everywhere but on one cell that does not feed
/// the fake-boot buffer replay to the same buffer.
proof fn lemma_fb_fold_agree(
    in1: [[bool; 15]; 5],
    in2: [[bool; 15]; 5],
    i0: int,
    j0: int,
    n: int,
)
    requires
        0 <= n <= 75,
        0 <= i0 < 5,
        0 <= j0 < 15,
        !layout_spec(i0, j0).is_normal_spec(),
        forall|i: int, j: int|
            #![trigger in1[i][j]]
            #![trigger in2[i][j]]
            0 <= i < 5 && 0 <= j < 15 && !(i == i0 && j == j0) ==> in1[i][j] == in2[i][j],
    ensures
        fb_fold(in1, n) == fb_fold(in2, n),
    decreases n,
{
    if n > 0 {
        lemma_cell_of_index(n - 1);
        lemma_fb_fold_agree(in1, in2, i0, j0, n - 1);
    }
}

/// Usage codes of the pressed ordinary keys among the first `n` cells,
/// in row-major order, oldest first.
pub open spec fn pressed_codes(input: [[bool; 15]; 5], n: int) -> Seq<u8>
    decreases n,
{
    if n <= 0 {
        Seq::empty()
    } else {
        let prev = pressed_codes(input, n - 1);
        let i = (n - 1) / 15;
        let j = (n - 1) % 15;
        if input[i][j] && layout_spec(i, j).is_normal_spec() {
            prev.push(layout_spec(i, j).code_spec())
        } else {
            prev
        }
    }
}

/// Every recorded code is a real usage code: nonzero and below 120.
proof fn lemma_pressed_codes_in_range(input: [[bool; 15]; 5], n: int)
    requires
        0 <= n <= 75,
    ensures
        forall|a: int|
            0 <= a < pressed_codes(input, n).len() ==> 4 <= #[trigger] pressed_codes(input, n)[a]
                < 120,
    decreases n,
{
    if n > 0 {
        lemma_cell_of_index(n - 1);
        lemma_pressed_codes_in_range(input, n - 1);
        let i = (n - 1) / 15;
        let j = (n - 1) % 15;
        if input[i][j] && layout_spec(i, j).is_normal_spec() {
            lemma_normal_code_range(layout_spec(i, j));
        }
        assert forall|a: int| 0 <= a < pressed_codes(input, n).len() implies 4 <= #[trigger] pressed_codes(
            input,
            n,
        )[a] < 120 by {
            if a < pressed_codes(input, n - 1).len() {
                assert(pressed_codes(input, n)[a] == pressed_codes(input, n - 1)[a]);
            }
        }
    }
}

/// The fake-boot buffer the encoder builds is exactly the replay of
/// the pressed ordinary keys, in row-major order, through the buffer's
/// record operation.
pub proof fn lemma_fb_fold_is_push_seq(input: [[bool; 15]; 5], n: int)
    requires
        0 <= n <= 75,
    ensures
        fb_fold(input, n) == fb_push_seq(empty_fake_boot(), pressed_codes(input, n)),
    decreases n,
{
    if n > 0 {
        lemma_cell_of_index(n - 1);
        lemma_fb_fold_is_push_seq(input, n - 1);
        let i = (n - 1) / 15;
        let j = (n - 1) % 15;
        if input[i][j] && layout_spec(i, j).is_normal_spec() {
            lemma_fb_push_seq_snoc(
                empty_fake_boot(),
                pressed_codes(input, n - 1),
                layout_spec(i, j).code_spec(),
            );
        }
    }
}

/// Law: when the pressed ordinary keys are pairwise distinct, the
/// fake-boot buffer of the encoded report is a FIFO window — the six
/// most recently reached keys in row-major order, the oldest evicted
/// first, never a duplicate.
pub proof fn lemma_fake_boot_fifo_bound(input: [[bool; 15]; 5], r: NKROReport)
    requires
        encode_rel(input, r),
        forall|a: int, b: int|
            0 <= a < b < pressed_codes(input, 75).len() ==> pressed_codes(input, 75)[a]
                != pressed_codes(input, 75)[b],
    ensures
        r.fake_boot@ == fb_window(pressed_codes(input, 75)),
{
    lemma_pressed_codes_in_range(input, 75);
    lemma_fb_fold_is_push_seq(input, 75);
    lemma_fb_fifo_window(pressed_codes(input, 75));
}

/// Law: every buffer the encoder builds is well formed — its empty
/// slots form a suffix, so [`crate::nkro::lemma_fb_push_idempotent`]
/// applies to it: a key already recorded never shifts the buffer or
/// enters it twice.
pub proof fn lemma_fb_fold_wf(input: [[bool; 15]; 5], n: int)
    requires
        0 <= n <= 75,
    ensures
        fb_wf(fb_fold(input, n)),
    decreases n,
{
    if n > 0 {
        lemma_cell_of_index(n - 1);
        lemma_fb_fold_wf(input, n - 1);
        let i = (n - 1) / 15;
        let j = (n - 1) % 15;
        if input[i][j] && layout_spec(i, j).is_normal_spec() {
            lemma_normal_code_range(layout_spec(i, j));
            lemma_fb_push_wf(fb_fold(input, n - 1), layout_spec(i, j).code_spec());
        }
    }
}

/// Law: the encoder is deterministic — any two reports that satisfy the
/// encoder's contract for the same bitmap are byte-identical.
pub proof fn lemma_encode_deterministic(input: [[bool; 15]; 5], r1: NKROReport, r2: NKROReport)
    requires
        encode_rel(input, r1),
        encode_rel(input, r2),
    ensures
        r1 == r2,
{
    assert forall|b: u8| b < 8 implies (#[trigger] u8_bit(r1.modifier, b) <==> u8_bit(
        r2.modifier,
        b,
    )) by {}
    lemma_u8_bits_eq(r1.modifier, r2.modifier);
    assert forall|k: u8| k < 120 implies (#[trigger] keys_bit(r1.keys, k) <==> keys_bit(
        r2.keys,
        k,
    )) by {}
    lemma_keys_bits_eq(r1.keys, r2.keys);
    assert(r1.keys =~= r2.keys);
    assert(r1.fake_boot =~= r2.fake_boot);
    assert(r1 =~= r2);
}

/// Law: pressing exactly one cell, and that cell holds a modifier,
/// yields a report whose modifier byte has exactly that modifier's bit
/// set, whose key bitmap is all zero, and whose fake-boot buffer is
/// empty.
pub proof fn lemma_modifier_round_trip(input: [[bool; 15]; 5], r: NKROReport, i0: int, j0: int)
    requires
        encode_rel(input, r),
        0 <= i0 < 5,
        0 <= j0 < 15,
        input[i0][j0],
        layout_spec(i0, j0).is_modifier_spec(),
        forall|i: int, j: int|
            0 <= i < 5 && 0 <= j < 15 && !(i == i0 && j == j0) ==> !(#[trigger] input[i][j]),
    ensures
        r.modifier == 1u8 << layout_spec(i0, j0).modifier_bit_spec(),
        forall|bi: int| 0 <= bi < 15 ==> r.keys[bi] == 0u8,
        r.fake_boot@ == empty_fake_boot(),
{
    let b0 = layout_spec(i0, j0).modifier_bit_spec();
    lemma_modifier_bit_range(layout_spec(i0, j0));
    assert forall|b: u8| b < 8 implies (#[trigger] u8_bit(r.modifier, b) <==> b == b0) by {
        if u8_bit(r.modifier, b) {
            let (i2, j2) = choose|i2: int, j2: int| mod_contrib(input, i2, j2, b);
            assert(mod_contrib(input, i2, j2, b));
            assert(i2 == i0 && j2 == j0);
        }
        if b == b0 {
            assert(mod_contrib(input, i0, j0, b0));
        }
    }
    lemma_u8_bits_single(r.modifier, b0);
    assert forall|k: u8| k < 120 implies !(#[trigger] keys_bit(r.keys, k)) by {
        if keys_bit(r.keys, k) {
            let (i2, j2) = choose|i2: int, j2: int| key_contrib(input, i2, j2, k);
            assert(key_contrib(input, i2, j2, k));
            assert(i2 == i0 && j2 == j0);
        }
    }
    lemma_keys_bits_zero(r.keys);
    lemma_fb_fold_no_normal(input, 75);
}

/// Law: a cell mapped to a sentinel (unassigned or the reserved
/// function key) contributes nothing — two bitmaps that differ only in
/// such a cell encode to identical reports.
pub proof fn lemma_sentinel_suppression(
    in1: [[bool; 15]; 5],
    in2: [[bool; 15]; 5],
    r1: NKROReport,
    r2: NKROReport,
    i0: int,
    j0: int,
)
    requires
        encode_rel(in1, r1),
        encode_rel(in2, r2),
        0 <= i0 < 5,
        0 <= j0 < 15,
        !layout_spec(i0, j0).is_modifier_spec(),
        !layout_spec(i0, j0).is_normal_spec(),
        forall|i: int, j: int|
            #![trigger in1[i][j]]
            #![trigger in2[i][j]]
            0 <= i < 5 && 0 <= j < 15 && !(i == i0 && j == j0) ==> in1[i][j] == in2[i][j],
    ensures
        r1 == r2,
{
    assert forall|b: u8| b < 8 implies (#[trigger] u8_bit(r1.modifier, b) <==> u8_bit(
        r2.modifier,
        b,
    )) by {
        if u8_bit(r1.modifier, b) {
            let (i2, j2) = choose|i2: int, j2: int| mod_contrib(in1, i2, j2, b);
            assert(mod_contrib(in1, i2, j2, b));
            assert(!(i2 == i0 && j2 == j0));
            assert(mod_contrib(in2, i2, j2, b));
        }
        if u8_bit(r2.modifier, b) {
            let (i2, j2) = choose|i2: int, j2: int| mod_contrib(in2, i2, j2, b);
            assert(mod_contrib(in2, i2, j2, b));
            assert(!(i2 == i0 && j2 == j0));
            assert(mod_contrib(in1, i2, j2, b));
        }
    }
    lemma_u8_bits_eq(r1.modifier, r2.modifier);
    assert forall|k: u8| k < 120 implies (#[trigger] keys_bit(r1.keys, k) <==> keys_bit(
        r2.keys,
        k,
    )) by {
        if keys_bit(r1.keys, k) {
            let (i2, j2) = choose|i2: int, j2: int| key_contrib(in1, i2, j2, k);
            assert(key_contrib(in1, i2, j2, k));
            assert(!(i2 == i0 && j2 == j0));
            assert(key_contrib(in2, i2, j2, k));
        }
        if keys_bit(r2.keys, k) {
            let (i2, j2) = choose|i2: int, j2: int| key_contrib(in2, i2, j2, k);
            assert(key_contrib(in2, i2, j2, k));
            assert(!(i2 == i0 && j2 == j0));
            assert(key_contrib(in1, i2, j2, k));
        }
    }
    lemma_keys_bits_eq(r1.keys, r2.keys);
    lemma_fb_fold_agree(in1, in2, i0, j0, 75);
    assert(r1.keys =~= r2.keys);
    assert(r1.fake_boot =~= r2.fake_boot);
    assert(r1 =~= r2);
}

/// Convert the raw bitmap from scanning the matrix into an NKRO report.
///
/// Every cell is visited in row-major order. A pressed cell is mapped
/// through the layout: unassigned and reserved cells are skipped,
/// modifiers set their designated bit of the modifier byte, and every
/// other key sets its bit of the 120-bit bitmap and is recorded in the
/// fake-boot rollover buffer.
pub fn bitmap_to_report(input: &[[bool; 15]; 5]) -> (report: NKROReport)
    ensures
        encode_rel(*input, report),
{
    let mut report = NKROReport::new();
    proof {
        assert(forall|b: u8| b < 8 ==> !u8_bit(0u8, b)) by (bit_vector);
        assert forall|k: u8| k < 120 implies !keys_bit(report.keys, k) by {
            lemma_keys_decompose(k);
            assert(report.keys[(k >> 3u8) as int] == 0u8);
        }
    }
    let mut i: usize = 0;
    while i < 5
        invariant
            i <= 5,
            report.reserved == 0,
            report.leds == 0,
            forall|b: u8|
                b < 8 ==> (#[trigger] u8_bit(report.modifier, b) <==> mod_seen(
                    *input,
                    15 * (i as int),
                    b,
                )),
            forall|k: u8|
                k < 120 ==> (#[trigger] keys_bit(report.keys, k) <==> key_seen(
                    *input,
                    15 * (i as int),
                    k,
                )),
            report.fake_boot@ == fb_fold(*input, 15 * (i as int)),
        decreases 5 - i,
    {
        let mut j: usize = 0;
        while j < 15
            invariant
                i < 5,
                j <= 15,
                report.reserved == 0,
                report.leds == 0,
                forall|b: u8|
                    b < 8 ==> (#[trigger] u8_bit(report.modifier, b) <==> mod_seen(
                        *input,
                        15 * (i as int) + j,
                        b,
                    )),
                forall|k: u8|
                    k < 120 ==> (#[trigger] keys_bit(report.keys, k) <==> key_seen(
                        *input,
                        15 * (i as int) + j,
                        k,
                    )),
                report.fake_boot@ == fb_fold(*input, 15 * (i as int) + j),
            decreases 15 - j,
        {
            let ghost ii = i as int;
            let ghost jj = j as int;
            let key_pressed = input[i][j];
            let key = lookup(i, j);
            if key_pressed && key != KeyCode::No && key != KeyCode::FnKey {
                if key.is_modifier() {
                    let mask = key.as_modifier_bit();
                    let ghost old_modifier = report.modifier;
                    report.modifier = report.modifier | mask;
                    proof {
                        let b0 = key.modifier_bit_spec();
                        lemma_modifier_bit_range(key);
                        lemma_u8_or_bit(old_modifier, b0);
                        lemma_contrib_ext_mod(*input, ii, jj, b0);
                        lemma_fb_fold_step(*input, ii, jj);
                    }
                } else {
                    let k = key.code();
                    proof {
                        lemma_normal_code_range(key);
                        lemma_keys_decompose(k);
                    }
                    let bi = (k >> 3) as usize;
                    let ghost old_keys = report.keys;
                    let mut key_bytes = report.keys;
                    key_bytes[bi] = key_bytes[bi] | (1u8 << (k & 7));
                    report.keys = key_bytes;
                    report.fake_boot = fake_boot_push(report.fake_boot, k);
                    proof {
                        assert(report.keys@ =~= old_keys@.update(
                            (k >> 3u8) as int,
                            old_keys[(k >> 3u8) as int] | (1u8 << (k & 7u8)),
                        ));
                        lemma_keys_set_bit(old_keys, report.keys, k);
                        lemma_contrib_ext_key(*input, ii, jj, k);
                        lemma_fb_fold_step(*input, ii, jj);
                    }
                }
            } else {
                proof {
                    lemma_contrib_ext_none(*input, ii, jj);
                    lemma_fb_fold_step(*input, ii, jj);
                }
            }
            j += 1;
        }
        i += 1;
    }
    proof {
        assert forall|b: u8| b < 8 implies (#[trigger] u8_bit(report.modifier, b) <==> exists|
            i2: int,
            j2: int,
        | mod_contrib(*input, i2, j2, b)) by {
            if u8_bit(report.modifier, b) {
                let (i2, j2) = choose|i2: int, j2: int|
                    mod_contrib(*input, i2, j2, b) && 15 * i2 + j2 < 75;
                assert(mod_contrib(*input, i2, j2, b));
            }
            if exists|i2: int, j2: int| mod_contrib(*input, i2, j2, b) {
                let (i2, j2) = choose|i2: int, j2: int| mod_contrib(*input, i2, j2, b);
                assert(mod_contrib(*input, i2, j2, b) && 15 * i2 + j2 < 75);
            }
        }
        assert forall|k: u8| k < 120 implies (#[trigger] keys_bit(report.keys, k) <==> exists|
            i2: int,
            j2: int,
        | key_contrib(*input, i2, j2, k)) by {
            if keys_bit(report.keys, k) {
                let (i2, j2) = choose|i2: int, j2: int|
                    key_contrib(*input, i2, j2, k) && 15 * i2 + j2 < 75;
                assert(key_contrib(*input, i2, j2, k));
            }
            if exists|i2: int, j2: int| key_contrib(*input, i2, j2, k) {
                let (i2, j2) = choose|i2: int, j2: int| key_contrib(*input, i2, j2, k);
                assert(key_contrib(*input, i2, j2, k) && 15 * i2 + j2 < 75);
            }
        }
    }
    report
}

} // verus!
