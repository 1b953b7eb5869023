//! UTF-16 text for fixed-size Windows string buffers.

use vstd::prelude::*;

verus! {

/// The UTF-16 code units of `c`: the code point itself below `0x10000`,
/// else a surrogate pair.
pub open spec fn utf16_units(c: char) -> Seq<u16> {
    let v = c as int;
    if v < 0x10000 {
        seq![v as u16]
    } else {
        let w = v - 0x10000;
        seq![(0xD800 + w / 1024) as u16, (0xDC00 + w % 1024) as u16]
    }
}

/// The UTF-16 encoding of a text.
pub open spec fn utf16_of(s: Seq<char>) -> Seq<u16>
    decreases s.len(),
{
    if s.len() == 0 {
        Seq::empty()
    } else {
        utf16_of(s.drop_last()) + utf16_units(s.last())
    }
}

/// What `copy_utf16_truncate` leaves in a buffer: as many code units of the
/// text as fit before a terminating zero, the rest of the buffer as it was.
pub open spec fn truncated_copy(old_buf: Seq<u16>, text: Seq<char>) -> Seq<u16> {
    let units = utf16_of(text);
    let max = if units.len() < old_buf.len() - 1 { units.len() as int } else { old_buf.len() - 1 };
    units.take(max) + seq![0u16] + old_buf.skip(max + 1)
}

fn push_utf16(units: &mut Vec<u16>, c: char)
    ensures
        final(units)@ == old(units)@ + utf16_units(c),
{
    let v = c as u32;
    if v < 0x10000 {
        units.push(v as u16);
    } else {
        let w = v - 0x10000;
        units.push((0xD800 + w / 1024) as u16);
        units.push((0xDC00 + w % 1024) as u16);
    }
}

/// The UTF-16 encoding of `text` (what `str::encode_utf16` yields).
pub fn encode_utf16(text: &str) -> (units: Vec<u16>)
    ensures
        units@ == utf16_of(text@),
{
    let n = text.unicode_len();
    let mut units: Vec<u16> = Vec::new();
    for i in 0..n
        invariant
            n == text@.len(),
            units@ == utf16_of(text@.take(i as int)),
    {
        let c = text.get_char(i);
        push_utf16(&mut units, c);
        assert(text@.take(i + 1).drop_last() =~= text@.take(i as int));
    }
    assert(text@.take(n as int) =~= text@);
    units
}

/// Copies `text` into `dst` as UTF-16, cutting it to fit, and terminates it
/// with a zero.
pub fn copy_utf16_truncate(dst: &mut [u16], text: &str)
    requires
        old(dst)@.len() >= 1,
    ensures
        final(dst)@ == truncated_copy(old(dst)@, text@),
{
    let encoded = encode_utf16(text);
    let room = dst.len() - 1;
    let max = if encoded.len() < room { encoded.len() } else { room };
    for i in 0..max
        invariant
            max <= encoded@.len(),
            max < dst@.len(),
            dst@.len() == old(dst)@.len(),
            encoded@ == utf16_of(text@),
            forall|k: int| 0 <= k < i ==> dst@[k] == encoded@[k],
            forall|k: int| i <= k < dst@.len() ==> dst@[k] == old(dst)@[k],
    {
        dst[i] = encoded[i];
    }
    dst[max] = 0;
    assert(dst@ =~= truncated_copy(old(dst)@, text@));
}

} // verus!
