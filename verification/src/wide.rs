//! NUL-terminated UTF-16 strings, as the Windows API takes and gives them.

use vstd::prelude::*;

verus! {

/// The UTF-16 code units of one character: one unit below U+10000, else a
/// surrogate pair.
pub open spec fn utf16_of(c: char) -> Seq<u16> {
    let v = c as u32;
    if v < 0x10000 {
        seq![v as u16]
    } else {
        let w = (v - 0x10000) as u32;
        seq![(0xD800 + w / 0x400) as u16, (0xDC00 + w % 0x400) as u16]
    }
}

/// Law (the units decode back to the character): a character below
/// U+10000 is one unit equal to its code point, outside the surrogate range;
/// any other is a high surrogate (`0xD800..0xDC00`) then a low surrogate
/// (`0xDC00..0xE000`) from which `0x10000 + (high - 0xD800) * 0x400 + (low -
/// 0xDC00)` gives back its code point.
pub proof fn lemma_utf16_decodes(c: char)
    ensures
        (c as u32) < 0x10000 ==> utf16_of(c).len() == 1 && utf16_of(c)[0] == c as u32 && !(
        0xD800 <= utf16_of(c)[0] < 0xE000),
        (c as u32) >= 0x10000 ==> utf16_of(c).len() == 2 && 0xD800 <= utf16_of(c)[0] < 0xDC00
            && 0xDC00 <= utf16_of(c)[1] < 0xE000 && 0x10000 + (utf16_of(c)[0] - 0xD800) * 0x400
            + (utf16_of(c)[1] - 0xDC00) == c as u32,
{
    let v = c as u32;
    assert(v <= 0xD7FF || 0xE000 <= v <= 0x10FFFF);
    if v >= 0x10000 {
        let w = (v - 0x10000) as u32;
        assert(w == 0x400 * (w / 0x400) + w % 0x400) by {
            vstd::arithmetic::div_mod::lemma_fundamental_div_mod(w as int, 0x400);
        }
        assert(w / 0x400 < 0x400);
        assert(w % 0x400 < 0x400);
    }
}

/// The UTF-16 encoding of a character sequence.
pub open spec fn utf16(s: Seq<char>) -> Seq<u16>
    decreases s.len(),
{
    if s.len() == 0 {
        Seq::empty()
    } else {
        utf16(s.drop_last()) + utf16_of(s.last())
    }
}

/// The UTF-16 encoding of `s` followed by a terminating zero unit.
pub fn wide(s: &str) -> (r: Vec<u16>)
    ensures
        r@ == utf16(s@).push(0u16),
{
    let n = s.unicode_len();
    let mut r: Vec<u16> = Vec::new();
    let mut i: usize = 0;
    while i < n
        invariant
            n == s@.len(),
            i <= n,
            r@ == utf16(s@.take(i as int)),
        decreases n - i,
    {
        let c = s.get_char(i);
        let v = c as u32;
        proof {
            assert(s@.take(i + 1).drop_last() =~= s@.take(i as int));
            assert(s@.take(i + 1).last() == c);
        }
        if v < 0x10000 {
            r.push(v as u16);
        } else {
            let w = v - 0x10000;
            r.push((0xD800 + w / 0x400) as u16);
            r.push((0xDC00 + w % 0x400) as u16);
        }
        proof {
            assert(r@ =~= utf16(s@.take(i as int)) + utf16_of(c));
        }
        i = i + 1;
    }
    proof {
        assert(s@.take(n as int) =~= s@);
    }
    r.push(0);
    r
}

/// The number of units before the first zero unit, or the whole length when
/// there is none.
pub fn len_before_nul(buf: &[u16]) -> (r: usize)
    ensures
        r <= buf@.len(),
        forall|j: int| 0 <= j < r ==> buf@[j] != 0,
        r < buf@.len() ==> buf@[r as int] == 0,
{
    let mut i: usize = 0;
    while i < buf.len()
        invariant
            i <= buf@.len(),
            forall|j: int| 0 <= j < i ==> buf@[j] != 0,
        decreases buf@.len() - i,
    {
        if buf[i] == 0 {
            return i;
        }
        i = i + 1;
    }
    i
}

} // verus!
