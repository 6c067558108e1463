//! Reading the key state of the foot switch: a bit per key code, eight to
//! a byte, lowest bit first.
use vstd::prelude::*;

verus! {

/// The number of key codes scanned.
pub const KEY_MAX: usize = 256;

/// Whether the bit of key code `k` is set in `bits`.
pub open spec fn key_bit(bits: Seq<u8>, k: int) -> bool {
    (bits[k / 8] >> ((k % 8) as u8)) & 1u8 == 1u8
}

/// Whether the bit of key code `yalv` is set in `array`: bit `yalv % 8`
/// of byte `yalv / 8`, the layout of the key state bitmap that the input
/// device reports (one bit per key code, lowest bit first).
pub fn test_bit(yalv: usize, array: &[u8]) -> (r: bool)
    requires
        yalv / 8 < array@.len(),
    ensures
        r == key_bit(array@, yalv as int),
{
    let shift: u8 = (yalv % 8) as u8;
    (array[yalv / 8] >> shift) & 1u8 == 1u8
}

/// The highest key code below `n` whose bit is set, if any.
pub open spec fn last_set_key(bits: Seq<u8>, n: nat) -> Option<nat>
    decreases n,
{
    if n == 0 {
        None
    } else if key_bit(bits, n - 1) {
        Some((n - 1) as nat)
    } else {
        last_set_key(bits, (n - 1) as nat)
    }
}

/// The key remembered after a scan of every key code, `last` before it:
/// each pressed key, in order, becomes the one remembered, so it is the
/// highest pressed key, or `last` when none is pressed.
pub open spec fn scan_spec(bits: Seq<u8>, last: usize, n: nat) -> usize {
    match last_set_key(bits, n) {
        Some(k) => k as usize,
        None => last,
    }
}

/// Scan the key state `key_b` for pressed keys, `last_yalv` the key
/// remembered before; the key remembered after.
pub fn scan_keys(key_b: &[u8], last_yalv: usize) -> (r: usize)
    requires
        key_b@.len() >= KEY_MAX / 8,
    ensures
        r == scan_spec(key_b@, last_yalv, KEY_MAX as nat),
{
    let mut last = last_yalv;
    let mut yalv: usize = 0;
    while yalv < KEY_MAX
        invariant
            yalv <= KEY_MAX,
            key_b@.len() >= KEY_MAX / 8,
            last == scan_spec(key_b@, last_yalv, yalv as nat),
        decreases KEY_MAX - yalv,
    {
        if test_bit(yalv, key_b) {
            if last != yalv {
                last = yalv;
            }
        }
        yalv = yalv + 1;
    }
    last
}

} // verus!
