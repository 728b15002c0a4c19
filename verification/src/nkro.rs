//! The NKRO wire report and its fake-boot rollover buffer.
//!
//! [`NKROReport`] is the fixed 30-byte HID input report: modifier bits, a
//! reserved zero byte, an LED echo slot, a legacy-compatible 6-slot
//! rollover buffer (`fake_boot`), and a 120-bit key bitmap (`keys`).
//!
//! The fake-boot buffer keeps the 6 most recently pressed ordinary keys
//! so that a boot-protocol-only host, which ignores the report
//! descriptor, still reads a well-formed 6-key report. [`fake_boot_push`]
//! is its single operation: record a key, keeping it unique in the
//! buffer and evicting the oldest entry when the buffer is full.

use vstd::prelude::*;

verus! {

broadcast use vstd::array::group_array_axioms;

/// Wire-format HID input report, 30 bytes, fields in descriptor order.
#[derive(Clone, Copy, PartialEq, Eq, Debug)]
#[verifier::ext_equal]
pub struct NKROReport {
    /// One bit per modifier key, left ctrl = bit 0 up to right gui = bit 7.
    pub modifier: u8,
    /// Constant zero padding required by the descriptor shape.
    pub reserved: u8,
    /// LED state echo, written by the host-to-device path, not by this crate.
    pub leds: u8,
    /// Legacy 6-slot rollover buffer; 0 marks an empty slot.
    pub fake_boot: [u8; 6],
    /// Full bitmap: bit `code & 7` of byte `code >> 3` per held key.
    pub keys: [u8; 15],
}

impl NKROReport {
    /// A fresh all-zero report shell.
    pub fn new() -> (r: NKROReport)
        ensures
            r.modifier == 0,
            r.reserved == 0,
            r.leds == 0,
            r.fake_boot@ == empty_fake_boot(),
            forall|i: int| 0 <= i < 15 ==> r.keys[i] == 0u8,
    {
        let r = NKROReport {
            modifier: 0,
            reserved: 0,
            leds: 0,
            fake_boot: [0; 6],
            keys: [0; 15],
        };
        proof {
            assert(r.fake_boot@ =~= empty_fake_boot());
        }
        r
    }
}

/// Bit `b` of the byte `x`.
pub open spec fn u8_bit(x: u8, b: u8) -> bool {
    (x >> b) & 1u8 == 1u8
}

/// Bit of the 120-bit `keys` bitmap that belongs to usage code `k`:
/// bit `k & 7` of byte `k >> 3`.
pub open spec fn keys_bit(keys: [u8; 15], k: u8) -> bool
    recommends
        k < 120,
{
    u8_bit(keys[(k >> 3u8) as int], k & 7u8)
}

/// The empty fake-boot buffer: six empty slots.
pub open spec fn empty_fake_boot() -> Seq<u8> {
    seq![0u8, 0u8, 0u8, 0u8, 0u8, 0u8]
}

/// A slot stops the scan for key `k`: it is empty, or already holds `k`.
pub open spec fn fb_hit(slot: u8, k: u8) -> bool {
    slot == 0 || slot == k
}

/// Index of the first slot that stops the scan for `k`, or `fb.len()`
/// if no slot does.
pub open spec fn fb_first_hit(fb: Seq<u8>, k: u8) -> int
    decreases fb.len(),
{
    if fb.len() == 0 {
        0
    } else if fb_hit(fb[0], k) {
        0
    } else {
        1 + fb_first_hit(fb.drop_first(), k)
    }
}

/// Result of recording key `k` in the buffer: fill the first empty slot,
/// or leave the buffer alone if `k` is already present before any empty
/// slot, or — with the buffer full of other keys — shift every slot left
/// (evicting the oldest) and put `k` last.
pub open spec fn fb_push(fb: Seq<u8>, k: u8) -> Seq<u8> {
    let h = fb_first_hit(fb, k);
    if h < fb.len() {
        if fb[h] == 0 {
            fb.update(h, k)
        } else {
            fb
        }
    } else {
        fb.subrange(1, fb.len() as int).push(k)
    }
}

/// Or-ing a one-bit mask into a byte sets exactly that bit.
pub proof fn lemma_u8_or_bit(x: u8, b0: u8)
    requires
        b0 < 8,
    ensures
        forall|b: u8| b < 8 ==> (#[trigger] u8_bit(x | (1u8 << b0), b) <==> (u8_bit(x, b) || b == b0)),
{
    assert forall|b: u8| b < 8 implies (#[trigger] u8_bit(x | (1u8 << b0), b) <==> (u8_bit(x, b)
        || b == b0)) by {
        assert((u8_bit(x | (1u8 << b0), b) <==> (u8_bit(x, b) || b == b0))) by (bit_vector)
            requires
                b < 8,
                b0 < 8,
        ;
    }
}

/// A byte is determined by its eight bits.
pub proof fn lemma_u8_bits_eq(x: u8, y: u8)
    requires
        forall|b: u8| b < 8 ==> (#[trigger] u8_bit(x, b) <==> u8_bit(y, b)),
    ensures
        x == y,
{
    assert(u8_bit(x, 0) <==> u8_bit(y, 0));
    assert(u8_bit(x, 1) <==> u8_bit(y, 1));
    assert(u8_bit(x, 2) <==> u8_bit(y, 2));
    assert(u8_bit(x, 3) <==> u8_bit(y, 3));
    assert(u8_bit(x, 4) <==> u8_bit(y, 4));
    assert(u8_bit(x, 5) <==> u8_bit(y, 5));
    assert(u8_bit(x, 6) <==> u8_bit(y, 6));
    assert(u8_bit(x, 7) <==> u8_bit(y, 7));
    assert(x == y) by (bit_vector)
        requires
            (u8_bit(x, 0) <==> u8_bit(y, 0)),
            (u8_bit(x, 1) <==> u8_bit(y, 1)),
            (u8_bit(x, 2) <==> u8_bit(y, 2)),
            (u8_bit(x, 3) <==> u8_bit(y, 3)),
            (u8_bit(x, 4) <==> u8_bit(y, 4)),
            (u8_bit(x, 5) <==> u8_bit(y, 5)),
            (u8_bit(x, 6) <==> u8_bit(y, 6)),
            (u8_bit(x, 7) <==> u8_bit(y, 7)),
    ;
}

/// A byte with no bit set is zero.
pub proof fn lemma_u8_bits_zero(x: u8)
    requires
        forall|b: u8| b < 8 ==> !(#[trigger] u8_bit(x, b)),
    ensures
        x == 0,
{
    assert forall|b: u8| b < 8 implies (#[trigger] u8_bit(x, b) <==> u8_bit(0u8, b)) by {
        assert(!u8_bit(0u8, b)) by (bit_vector);
    }
    lemma_u8_bits_eq(x, 0);
}

/// A byte whose only set bit is `b0` is the mask `1 << b0`.
pub proof fn lemma_u8_bits_single(x: u8, b0: u8)
    requires
        b0 < 8,
        forall|b: u8| b < 8 ==> (#[trigger] u8_bit(x, b) <==> b == b0),
    ensures
        x == (1u8 << b0),
{
    assert forall|b: u8| b < 8 implies (#[trigger] u8_bit(x, b) <==> u8_bit(1u8 << b0, b)) by {
        assert(u8_bit(1u8 << b0, b) <==> b == b0) by (bit_vector)
            requires
                b < 8,
                b0 < 8,
        ;
    }
    lemma_u8_bits_eq(x, 1u8 << b0);
}

/// A usage code below 120 addresses a byte below 15 and a bit below 8.
pub proof fn lemma_keys_decompose(k: u8)
    requires
        k < 120,
    ensures
        (k >> 3u8) < 15,
        (k & 7u8) < 8,
{
    assert((k >> 3u8) < 15 && (k & 7u8) < 8) by (bit_vector)
        requires
            k < 120,
    ;
}

/// Setting the bit of code `k` in the `keys` bitmap sets exactly that
/// code's bit and no other.
pub proof fn lemma_keys_set_bit(a: [u8; 15], b: [u8; 15], k: u8)
    requires
        k < 120,
        b@ == a@.update((k >> 3u8) as int, a[(k >> 3u8) as int] | (1u8 << (k & 7u8))),
    ensures
        forall|k2: u8| k2 < 120 ==> (#[trigger] keys_bit(b, k2) <==> (keys_bit(a, k2) || k2 == k)),
{
    lemma_keys_decompose(k);
    assert forall|k2: u8| k2 < 120 implies (#[trigger] keys_bit(b, k2) <==> (keys_bit(a, k2) || k2
        == k)) by {
        lemma_keys_decompose(k2);
        if (k2 >> 3u8) == (k >> 3u8) {
            assert(b[(k2 >> 3u8) as int] == a[(k >> 3u8) as int] | (1u8 << (k & 7u8)));
            lemma_u8_or_bit(a[(k >> 3u8) as int], k & 7u8);
            assert(((k2 >> 3u8) == (k >> 3u8) && (k2 & 7u8) == (k & 7u8)) ==> k2 == k)
                by (bit_vector);
        } else {
            assert((k2 >> 3u8) as int != (k >> 3u8) as int);
            assert(b[(k2 >> 3u8) as int] == a[(k2 >> 3u8) as int]);
        }
    }
}

/// A well-formed buffer: six slots, and the empty slots form a suffix.
pub open spec fn fb_wf(fb: Seq<u8>) -> bool {
    &&& fb.len() == 6
    &&& forall|a: int, b: int| 0 <= a < b < 6 && fb[a] == 0u8 ==> fb[b] == 0u8
}

pub proof fn lemma_fb_first_hit_props(fb: Seq<u8>, k: u8)
    ensures
        0 <= fb_first_hit(fb, k) <= fb.len(),
        fb_first_hit(fb, k) < fb.len() ==> fb_hit(fb[fb_first_hit(fb, k)], k),
        forall|j: int| 0 <= j < fb_first_hit(fb, k) ==> !fb_hit(fb[j], k),
    decreases fb.len(),
{
    if fb.len() == 0 {
    } else if fb_hit(fb[0], k) {
    } else {
        lemma_fb_first_hit_props(fb.drop_first(), k);
        assert forall|j: int| 0 <= j < fb_first_hit(fb, k) implies !fb_hit(fb[j], k) by {
            if j > 0 {
                assert(fb.drop_first()[j - 1] == fb[j]);
            }
        }
    }
}

pub proof fn lemma_fb_first_hit_at(fb: Seq<u8>, k: u8, i: int)
    requires
        0 <= i <= fb.len(),
        forall|j: int| 0 <= j < i ==> !fb_hit(fb[j], k),
        i < fb.len() ==> fb_hit(fb[i], k),
    ensures
        fb_first_hit(fb, k) == i,
    decreases fb.len(),
{
    if fb.len() == 0 {
    } else if fb_hit(fb[0], k) {
        assert(i == 0);
    } else {
        assert(i >= 1) by {
            assert(!fb_hit(fb[0], k));
        }
        assert forall|j: int| 0 <= j < i - 1 implies !fb_hit(fb.drop_first()[j], k) by {
            assert(fb.drop_first()[j] == fb[j + 1]);
        }
        assert(i - 1 < fb.drop_first().len() ==> fb_hit(fb.drop_first()[i - 1], k)) by {
            if i < fb.len() {
                assert(fb.drop_first()[i - 1] == fb[i]);
            }
        }
        lemma_fb_first_hit_at(fb.drop_first(), k, i - 1);
    }
}

/// Record key `k` in the fake-boot buffer (`k` must be a real usage
/// code, never 0, which marks an empty slot).
pub fn fake_boot_push(fb: [u8; 6], k: u8) -> (r: [u8; 6])
    requires
        k != 0,
    ensures
        r@ == fb_push(fb@, k),
{
    let mut i: usize = 0;
    while i < 6 && fb[i] != 0 && fb[i] != k
        invariant
            i <= 6,
            forall|j: int| 0 <= j < i ==> !fb_hit(fb@[j], k),
        decreases 6 - i,
    {
        i += 1;
    }
    proof {
        lemma_fb_first_hit_at(fb@, k, i as int);
    }
    if i < 6 {
        if fb[i] == 0 {
            let mut r = fb;
            r[i] = k;
            proof {
                assert(r@ =~= fb@.update(i as int, k));
            }
            r
        } else {
            fb
        }
    } else {
        let mut r: [u8; 6] = [0; 6];
        r[0] = fb[1];
        r[1] = fb[2];
        r[2] = fb[3];
        r[3] = fb[4];
        r[4] = fb[5];
        r[5] = k;
        proof {
            assert(r@ =~= fb@.subrange(1, 6).push(k));
        }
        r
    }
}

/// The `keys` bitmap is determined by its 120 bits.
pub proof fn lemma_keys_bits_eq(a: [u8; 15], b: [u8; 15])
    requires
        forall|k: u8| k < 120 ==> (#[trigger] keys_bit(a, k) <==> keys_bit(b, k)),
    ensures
        a@ == b@,
{
    assert forall|biu: u8| biu < 15 implies a[biu as int] == b[biu as int] by {
        assert forall|b2: u8| b2 < 8 implies (#[trigger] u8_bit(a[biu as int], b2) <==> u8_bit(
            b[biu as int],
            b2,
        )) by {
            let k: u8 = ((8 * (biu as int) + b2) as u8);
            assert((k >> 3u8) == biu && (k & 7u8) == b2) by (bit_vector)
                requires
                    biu < 15,
                    b2 < 8,
                    k == 8 * biu + b2,
            ;
            assert(keys_bit(a, k) <==> keys_bit(b, k));
        }
        lemma_u8_bits_eq(a[biu as int], b[biu as int]);
    }
    assert forall|bi: int| 0 <= bi < 15 implies a[bi] == b[bi] by {
        assert(a[(bi as u8) as int] == b[(bi as u8) as int]);
    }
    assert(a@ =~= b@);
}

/// A `keys` bitmap with no bit set is all zero.
pub proof fn lemma_keys_bits_zero(a: [u8; 15])
    requires
        forall|k: u8| k < 120 ==> !(#[trigger] keys_bit(a, k)),
    ensures
        forall|bi: int| 0 <= bi < 15 ==> a[bi] == 0u8,
{
    assert forall|biu: u8| biu < 15 implies a[biu as int] == 0u8 by {
        assert forall|b2: u8| b2 < 8 implies !(#[trigger] u8_bit(a[biu as int], b2)) by {
            let k: u8 = ((8 * (biu as int) + b2) as u8);
            assert((k >> 3u8) == biu && (k & 7u8) == b2) by (bit_vector)
                requires
                    biu < 15,
                    b2 < 8,
                    k == 8 * biu + b2,
            ;
            assert(!keys_bit(a, k));
        }
        lemma_u8_bits_zero(a[biu as int]);
    }
    assert forall|bi: int| 0 <= bi < 15 implies a[bi] == 0u8 by {
        assert(a[(bi as u8) as int] == 0u8);
    }
}

/// The buffer after recording a whole sequence of keys, oldest first.
pub open spec fn fb_push_seq(fb: Seq<u8>, ks: Seq<u8>) -> Seq<u8>
    decreases ks.len(),
{
    if ks.len() == 0 {
        fb
    } else {
        fb_push_seq(fb_push(fb, ks[0]), ks.drop_first())
    }
}

/// The 6 most recently recorded of a sequence of distinct keys, oldest
/// first, padded with empty slots while fewer than 6 exist.
pub open spec fn fb_window(ks: Seq<u8>) -> Seq<u8> {
    if ks.len() <= 6 {
        ks + empty_fake_boot().subrange(0, 6 - ks.len())
    } else {
        ks.subrange(ks.len() - 6, ks.len() as int)
    }
}

/// Recording one more key after a sequence is one more record
/// operation on the buffer the sequence left behind.
pub proof fn lemma_fb_push_seq_snoc(fb: Seq<u8>, ks: Seq<u8>, k: u8)
    ensures
        fb_push_seq(fb, ks.push(k)) == fb_push(fb_push_seq(fb, ks), k),
    decreases ks.len(),
{
    if ks.len() == 0 {
        assert(ks.push(k)[0] == k);
        assert(ks.push(k).drop_first() =~= ks);
        assert(fb_push_seq(fb, ks.push(k)) == fb_push_seq(fb_push(fb, k), ks));
        assert(fb_push_seq(fb_push(fb, k), ks) == fb_push(fb, k));
        assert(fb_push_seq(fb, ks) == fb);
    } else {
        assert(ks.push(k)[0] == ks[0]);
        assert(ks.push(k).drop_first() =~= ks.drop_first().push(k));
        assert(fb_push_seq(fb, ks.push(k)) == fb_push_seq(
            fb_push(fb, ks[0]),
            ks.drop_first().push(k),
        ));
        assert(fb_push_seq(fb, ks) == fb_push_seq(fb_push(fb, ks[0]), ks.drop_first()));
        lemma_fb_push_seq_snoc(fb_push(fb, ks[0]), ks.drop_first(), k);
    }
}

/// Recording a key the buffer does not hold: it fills the first empty
/// slot, or — with the buffer full — evicts the oldest entry.
proof fn lemma_fb_push_fresh(fb: Seq<u8>, k: u8, m: int)
    requires
        fb.len() == 6,
        0 <= m <= 6,
        k != 0,
        forall|a: int| 0 <= a < m ==> fb[a] != 0 && fb[a] != k,
        forall|a: int| m <= a < 6 ==> fb[a] == 0u8,
    ensures
        fb_push(fb, k) == (if m < 6 {
            fb.update(m, k)
        } else {
            fb.subrange(1, 6).push(k)
        }),
{
    lemma_fb_first_hit_at(fb, k, m);
}

/// Law: recording distinct keys in sequence yields a FIFO window — the
/// buffer holds the six most recent, in order, the oldest evicted
/// first, and never a duplicate.
pub proof fn lemma_fb_fifo_window(ks: Seq<u8>)
    requires
        forall|a: int| 0 <= a < ks.len() ==> ks[a] != 0,
        forall|a: int, b: int| 0 <= a < b < ks.len() ==> ks[a] != ks[b],
    ensures
        fb_push_seq(empty_fake_boot(), ks) == fb_window(ks),
    decreases ks.len(),
{
    if ks.len() == 0 {
        assert(fb_window(ks) =~= empty_fake_boot());
    } else {
        let pre = ks.drop_last();
        let last = ks.last();
        assert(ks =~= pre.push(last));
        lemma_fb_fifo_window(pre);
        lemma_fb_push_seq_snoc(empty_fake_boot(), pre, last);
        let w = fb_window(pre);
        if pre.len() < 6 {
            let m = pre.len() as int;
            assert forall|a: int| 0 <= a < m implies w[a] != 0 && w[a] != last by {
                assert(w[a] == pre[a]);
                assert(ks[a] != ks[ks.len() - 1]);
            }
            assert forall|a: int| m <= a < 6 implies w[a] == 0u8 by {
                assert(w[a] == empty_fake_boot()[a - m]);
            }
            lemma_fb_push_fresh(w, last, m);
            assert(fb_push(w, last) =~= fb_window(ks));
        } else {
            let off = pre.len() - 6;
            assert forall|a: int| 0 <= a < 6 implies w[a] != 0 && w[a] != last by {
                assert(w[a] == pre[off + a]);
                assert(ks[off + a] != ks[ks.len() - 1]);
            }
            lemma_fb_push_fresh(w, last, 6);
            assert(fb_push(w, last) =~= fb_window(ks));
        }
    }
}

/// Recording a nonzero key keeps the buffer well formed: empty slots
/// stay a suffix.
pub proof fn lemma_fb_push_wf(fb: Seq<u8>, k: u8)
    requires
        fb_wf(fb),
        k != 0,
    ensures
        fb_wf(fb_push(fb, k)),
{
    lemma_fb_first_hit_props(fb, k);
    let h = fb_first_hit(fb, k);
    if h < 6 && fb[h] == 0 {
        let r = fb.update(h, k);
        assert forall|a: int, b: int| 0 <= a < b < 6 && r[a] == 0u8 implies r[b] == 0u8 by {
            assert(a != h);
            assert(fb[a] == 0u8);
            assert(b != h || r[b] == k);
            assert(fb[h] == 0 && h < a ==> fb[a] == 0);
            assert(!fb_hit(fb[a], k) || a >= h);
        }
    } else if h >= 6 {
        let r = fb.subrange(1, 6).push(k);
        assert forall|a: int, b: int| 0 <= a < b < 6 && r[a] == 0u8 implies r[b] == 0u8 by {
            if a < 5 {
                assert(r[a] == fb[a + 1]);
                assert(!fb_hit(fb[a + 1], k));
            }
        }
    }
}

/// Re-recording a key that the buffer already holds changes nothing: no
/// shift, no duplicate entry.
pub proof fn lemma_fb_push_idempotent(fb: Seq<u8>, k: u8)
    requires
        fb_wf(fb),
        k != 0,
        fb.contains(k),
    ensures
        fb_push(fb, k) == fb,
{
    lemma_fb_first_hit_props(fb, k);
    let h = fb_first_hit(fb, k);
    let w = choose|w: int| 0 <= w < 6 && fb[w] == k;
    assert(fb_hit(fb[w], k));
    assert(h <= w);
    if fb[h] == 0 {
        assert(fb[w] == 0u8);
        assert(false);
    }
}

} // verus!
