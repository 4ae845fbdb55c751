use vstd::prelude::*;

use crate::text::chars_of;

verus! {

/// Seconds from the Windows file-time epoch (1601) to the Unix epoch.
pub const WINDOWS_TO_UNIX_EPOCH_SECONDS: u64 = 11_644_473_600;

/// The UTF-16 code units of one character: itself below `0x10000`, else a
/// surrogate pair.
pub open spec fn utf16_units(c: char) -> Seq<u16> {
    let v = c as u32 as int;
    if v < 0x10000 {
        seq![v as u16]
    } else {
        let w = v - 0x10000;
        seq![(0xD800 + w / 1024) as u16, (0xDC00 + w % 1024) as u16]
    }
}

/// The UTF-16 encoding of a text.
pub open spec fn utf16_of(s: Seq<char>) -> Seq<u16>
    decreases s.len(),
{
    if s.len() == 0 {
        seq![]
    } else {
        utf16_of(s.drop_last()) + utf16_units(s.last())
    }
}

/// `s` as the NUL-terminated UTF-16 text that Windows functions take.
#[verifier::spinoff_prover]
pub fn wide_str(s: &str) -> (w: Vec<u16>)
    ensures
        w@ == utf16_of(s@).push(0u16),
{
    let chars = chars_of(s);
    let mut w: Vec<u16> = Vec::new();
    let mut i: usize = 0;
    while i < chars.len()
        invariant
            chars@ == s@,
            i <= chars@.len(),
            w@ == utf16_of(s@.take(i as int)),
        decreases chars.len() - i,
    {
        let c = chars[i];
        let v = c as u32;
        assert(s@.take(i + 1).drop_last() =~= s@.take(i as int));
        assert(s@.take(i + 1).last() == c);
        if v < 0x10000 {
            w.push(v as u16);
            assert(w@ =~= utf16_of(s@.take(i as int)) + utf16_units(c));
        } else {
            let rest = v - 0x10000;
            let high = (0xD800 + rest / 1024) as u16;
            let low = (0xDC00 + rest % 1024) as u16;
            w.push(high);
            w.push(low);
            assert(w@ =~= utf16_of(s@.take(i as int)) + utf16_units(c));
        }
        i = i + 1;
    }
    assert(s@.take(chars.len() as int) =~= s@);
    w.push(0);
    w
}

/// The Windows file time of a Unix time in seconds, in 100-nanosecond ticks
/// since 1601, split into its low and high 32 bits; none where it passes 64
/// bits.
pub open spec fn file_time_of(unix_seconds: u64) -> Option<(u32, u32)> {
    let ticks = (unix_seconds + WINDOWS_TO_UNIX_EPOCH_SECONDS) * 10_000_000;
    if unix_seconds + WINDOWS_TO_UNIX_EPOCH_SECONDS > u64::MAX || ticks > u64::MAX {
        None
    } else {
        Some(((ticks % 0x1_0000_0000) as u32, (ticks / 0x1_0000_0000) as u32))
    }
}

/// The file time of a Unix time, as its low and high 32-bit halves.
pub fn file_time_from_unix_seconds(unix_seconds: u64) -> (t: Option<(u32, u32)>)
    ensures
        t == file_time_of(unix_seconds),
{
    let shifted = match unix_seconds.checked_add(WINDOWS_TO_UNIX_EPOCH_SECONDS) {
        Some(v) => v,
        None => {
            return None;
        },
    };
    let ticks = match shifted.checked_mul(10_000_000) {
        Some(v) => v,
        None => {
            return None;
        },
    };
    Some(((ticks % 0x1_0000_0000) as u32, (ticks / 0x1_0000_0000) as u32))
}

} // verus!
