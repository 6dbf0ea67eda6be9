//! Scanning byte buffers as UTF-8: validation and counting of scalar values.
//!
//! The meaning of "valid UTF-8" and of the decoded characters is vstd's
//! `valid_utf8` and `decode_utf8`.

use vstd::prelude::*;
use vstd::utf8::*;

verus! {

/// Width in bytes of the scalar encoded at the front of `b[i..n]`, or `0`
/// when no well-formed scalar starts there.
pub fn scalar_width(b: &[u8], i: usize, n: usize) -> (w: usize)
    requires
        i < n <= b@.len(),
    ensures
        w != 0 <==> valid_first_scalar(b@.subrange(i as int, n as int)),
        w != 0 ==> w == length_of_first_scalar(b@.subrange(i as int, n as int)),
        w <= 4,
{
    let ghost s = b@.subrange(i as int, n as int);
    let b0: u8 = b[i];
    assert(s[0] == b0);
    if b0 <= 0x7f {
        return 1;
    }
    let rest: usize = n - i;
    if 0xc0 <= b0 && b0 <= 0xdf {
        if rest < 2 {
            return 0;
        }
        let b1: u8 = b[i + 1];
        assert(s[1] == b1);
        if !(0x80 <= b1 && b1 <= 0xbf) {
            return 0;
        }
        let cp: u32 = (((b0 & 0x1f) as u32) << 6u32) | ((b1 & 0x3f) as u32);
        assert(cp == decode_first_codepoint(s));
        assert((((b0 & 0x1f) as u32) << 6u32) | ((b1 & 0x3f) as u32) <= 0x7ff) by (bit_vector);
        if cp >= 0x80 {
            2
        } else {
            0
        }
    } else if 0xe0 <= b0 && b0 <= 0xef {
        if rest < 3 {
            return 0;
        }
        let b1: u8 = b[i + 1];
        let b2: u8 = b[i + 2];
        assert(s[1] == b1 && s[2] == b2);
        if !(0x80 <= b1 && b1 <= 0xbf && 0x80 <= b2 && b2 <= 0xbf) {
            return 0;
        }
        let cp: u32 = (((b0 & 0x0f) as u32) << 12u32) | (((b1 & 0x3f) as u32) << 6u32) | ((b2
            & 0x3f) as u32);
        assert(cp == decode_first_codepoint(s));
        if cp >= 0x800 && !(0xd800 <= cp && cp <= 0xdfff) {
            3
        } else {
            0
        }
    } else if 0xf0 <= b0 && b0 <= 0xf7 {
        if rest < 4 {
            return 0;
        }
        let b1: u8 = b[i + 1];
        let b2: u8 = b[i + 2];
        let b3: u8 = b[i + 3];
        assert(s[1] == b1 && s[2] == b2 && s[3] == b3);
        if !(0x80 <= b1 && b1 <= 0xbf && 0x80 <= b2 && b2 <= 0xbf && 0x80 <= b3 && b3 <= 0xbf) {
            return 0;
        }
        let cp: u32 = (((b0 & 0x07) as u32) << 18u32) | (((b1 & 0x3f) as u32) << 12u32) | (((b2
            & 0x3f) as u32) << 6u32) | ((b3 & 0x3f) as u32);
        assert(cp == decode_first_codepoint(s));
        if 0x10000 <= cp && cp <= 0x10ffff && !(0xd800 <= cp && cp <= 0xdfff) {
            4
        } else {
            0
        }
    } else {
        0
    }
}

/// Whether the first `n` bytes of `b` are valid UTF-8.
pub fn is_valid_utf8(b: &[u8], n: usize) -> (r: bool)
    requires
        n <= b@.len(),
    ensures
        r == valid_utf8(b@.subrange(0, n as int)),
{
    let mut i: usize = 0;
    while i < n
        invariant
            i <= n <= b@.len(),
            valid_utf8(b@.subrange(0, n as int)) == valid_utf8(b@.subrange(i as int, n as int)),
        decreases n - i,
    {
        let w = scalar_width(b, i, n);
        if w == 0 {
            return false;
        }
        assert(pop_first_scalar(b@.subrange(i as int, n as int)) =~= b@.subrange(
            (i + w) as int,
            n as int,
        ));
        i = i + w;
    }
    assert(b@.subrange(i as int, n as int).len() == 0);
    true
}

/// Number of scalar values that the first `n` bytes of `b` decode to.
pub fn count_scalars(b: &[u8], n: usize) -> (c: usize)
    requires
        n <= b@.len(),
        valid_utf8(b@.subrange(0, n as int)),
    ensures
        c == decode_utf8(b@.subrange(0, n as int)).len(),
{
    let mut i: usize = 0;
    let mut c: usize = 0;
    while i < n
        invariant
            c <= i <= n <= b@.len(),
            valid_utf8(b@.subrange(i as int, n as int)),
            decode_utf8(b@.subrange(0, n as int)).len() == c + decode_utf8(
                b@.subrange(i as int, n as int),
            ).len(),
        decreases n - i,
    {
        let w = scalar_width(b, i, n);
        assert(pop_first_scalar(b@.subrange(i as int, n as int)) =~= b@.subrange(
            (i + w) as int,
            n as int,
        ));
        i = i + w;
        c = c + 1;
    }
    c
}

} // verus!
