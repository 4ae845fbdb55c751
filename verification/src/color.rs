use vstd::prelude::*;

use crate::text::{
    chars_of, is_whitespace, lemma_trim_end_take, lemma_trim_start_skip, push_char, trim, trim_bounds,
    trim_end, trim_start,
};

verus! {

/// An RGBA colour with 8-bit channels.
#[derive(Clone, Copy, Debug, PartialEq, Eq, Structural)]
pub struct Color {
    pub r: u8,
    pub g: u8,
    pub b: u8,
    pub a: u8,
}

/// Packs red, green and blue into a Win32 `COLORREF` (0x00BBGGRR).
pub open spec fn colorref_value(r: u8, g: u8, b: u8) -> u32 {
    (r as int + g as int * 256 + b as int * 65536) as u32
}

/// `COLORREF` value of the given channels: red in the low byte, then green,
/// then blue.
pub fn colorref(r: u8, g: u8, b: u8) -> (v: u32)
    ensures
        v == colorref_value(r, g, b),
{
    let v = r as u32 | (g as u32) << 8 | (b as u32) << 16;
    assert(r as u32 | (g as u32) << 8 | (b as u32) << 16 == (r as u32) + (g as u32) * 256 + (b as u32)
        * 65536) by (bit_vector);
    v
}

/// Width in bytes of the UTF-8 encoding of `c`.
pub open spec fn utf8_width(c: char) -> nat {
    let u = c as u32;
    if u < 0x80 {
        1
    } else if u < 0x800 {
        2
    } else if u < 0x10000 {
        3
    } else {
        4
    }
}

/// Length in bytes of the UTF-8 encoding of `s` (what `str::len` returns).
pub open spec fn utf8_len(s: Seq<char>) -> nat
    decreases s.len(),
{
    if s.len() == 0 {
        0
    } else {
        utf8_len(s.drop_last()) + utf8_width(s.last())
    }
}

proof fn lemma_utf8_len_take(s: Seq<char>, i: int)
    requires
        0 <= i <= s.len(),
    ensures
        utf8_len(s.take(i)) <= utf8_len(s),
        utf8_len(s.take(i)) >= i,
    decreases s.len() - i,
{
    if i < s.len() {
        lemma_utf8_len_take(s.drop_last(), i);
        assert(s.drop_last().take(i) == s.take(i));
    } else {
        assert(s.take(i) == s);
        lemma_utf8_len_ge_len(s);
    }
}

pub proof fn lemma_utf8_len_ge_len(s: Seq<char>)
    ensures
        utf8_len(s) >= s.len(),
        utf8_len(s) == s.len() <==> forall|k: int| 0 <= k < s.len() ==> utf8_width(#[trigger] s[k]) == 1,
    decreases s.len(),
{
    if s.len() > 0 {
        lemma_utf8_len_ge_len(s.drop_last());
        assert forall|k: int| 0 <= k < s.len() - 1 implies s.drop_last()[k] == #[trigger] s[k] by {}
        if utf8_len(s) == s.len() {
            assert forall|k: int| 0 <= k < s.len() implies utf8_width(#[trigger] s[k]) == 1 by {
                if k < s.len() - 1 {
                    assert(s.drop_last()[k] == s[k]);
                }
            }
        }
        if forall|k: int| 0 <= k < s.len() ==> utf8_width(#[trigger] s[k]) == 1 {
            assert(utf8_width(s[s.len() - 1]) == 1);
            assert forall|k: int| 0 <= k < s.drop_last().len() implies utf8_width(
                #[trigger] s.drop_last()[k],
            ) == 1 by {
                assert(s.drop_last()[k] == s[k]);
            }
        }
    }
}

fn width_of(c: char) -> (w: usize)
    ensures
        w == utf8_width(c),
{
    let u = c as u32;
    if u < 0x80 {
        1
    } else if u < 0x800 {
        2
    } else if u < 0x10000 {
        3
    } else {
        4
    }
}

/// Value of a hexadecimal digit, either case.
pub open spec fn hex_value(c: char) -> Option<u8> {
    if '0' <= c && c <= '9' {
        Some((c as u32 - '0' as u32) as u8)
    } else if 'a' <= c && c <= 'f' {
        Some((c as u32 - 'a' as u32 + 10) as u8)
    } else if 'A' <= c && c <= 'F' {
        Some((c as u32 - 'A' as u32 + 10) as u8)
    } else {
        None
    }
}

pub fn exec_hex_value(c: char) -> (v: Option<u8>)
    ensures
        v == hex_value(c),
{
    if '0' <= c && c <= '9' {
        Some((c as u32 - '0' as u32) as u8)
    } else if 'a' <= c && c <= 'f' {
        Some((c as u32 - 'a' as u32 + 10) as u8)
    } else if 'A' <= c && c <= 'F' {
        Some((c as u32 - 'A' as u32 + 10) as u8)
    } else {
        None
    }
}

/// What `u8::from_str_radix(s, 16)` gives on the two-character ASCII text
/// `c0 c1`: a leading `+` sign is accepted before a single digit.
pub open spec fn hex_pair_value(c0: char, c1: char) -> Option<u8> {
    if c0 == '+' {
        hex_value(c1)
    } else {
        match (hex_value(c0), hex_value(c1)) {
            (Some(hi), Some(lo)) => Some((hi * 16 + lo) as u8),
            _ => None,
        }
    }
}

fn exec_hex_pair_value(c0: char, c1: char) -> (v: Option<u8>)
    ensures
        v == hex_pair_value(c0, c1),
{
    if c0 == '+' {
        exec_hex_value(c1)
    } else {
        match (exec_hex_value(c0), exec_hex_value(c1)) {
            (Some(hi), Some(lo)) => Some(hi * 16 + lo),
            _ => None,
        }
    }
}

/// Outcome of cutting hex text into two-byte pieces and reading each piece.
pub enum HexScan {
    /// Every piece was read; the bytes in order.
    Parsed(Seq<u8>),
    /// A piece is not a number.
    Invalid,
    /// A two-byte cut falls inside a multi-byte character (a slice that
    /// panics).
    BadCut,
}

/// Reads `n` consecutive two-byte pieces of `h` as hexadecimal bytes, in order,
/// stopping at the first piece that fails.
pub open spec fn scan_hex_pieces(h: Seq<char>, n: nat) -> HexScan
    decreases n,
{
    if n == 0 {
        HexScan::Parsed(seq![])
    } else if h.len() >= 1 && utf8_width(h[0]) == 2 {
        HexScan::Invalid
    } else if h.len() >= 2 && utf8_width(h[0]) == 1 && utf8_width(h[1]) == 1 {
        match hex_pair_value(h[0], h[1]) {
            None => HexScan::Invalid,
            Some(v) => match scan_hex_pieces(h.skip(2), (n - 1) as nat) {
                HexScan::Parsed(rest) => HexScan::Parsed(seq![v] + rest),
                other => other,
            },
        }
    } else {
        HexScan::BadCut
    }
}

/// `s` without its leading `#` characters.
pub open spec fn strip_hashes(s: Seq<char>) -> Seq<char>
    decreases s.len(),
{
    if s.len() > 0 && s[0] == '#' {
        strip_hashes(s.drop_first())
    } else {
        s
    }
}

/// The digits that `Color::try_from_hex` reads: trimmed, leading `#`s removed.
pub open spec fn hex_digits_of(s: Seq<char>) -> Seq<char> {
    strip_hashes(trim(s))
}

/// How `Color::try_from_hex` reads `s`.
pub open spec fn hex_scan(s: Seq<char>) -> HexScan {
    let h = hex_digits_of(s);
    let n = utf8_len(h);
    if n != 6 && n != 8 {
        HexScan::Invalid
    } else {
        scan_hex_pieces(h, n / 2)
    }
}

/// Whether reading `s` as a colour cuts a multi-byte character apart (slicing
/// the text there panics).
pub open spec fn hex_cut_panics(s: Seq<char>) -> bool {
    hex_scan(s) is BadCut
}

/// The colour that `s` denotes as `#RRGGBB` or `#RRGGBBAA` text, if any.
pub open spec fn parse_color(s: Seq<char>) -> Option<Color> {
    match hex_scan(s) {
        HexScan::Parsed(v) => Some(
            Color { r: v[0], g: v[1], b: v[2], a: if v.len() == 4 { v[3] } else { 255 } },
        ),
        _ => None,
    }
}

/// The upper-case hexadecimal digit for `n` (< 16).
pub open spec fn upper_hex_digit(n: nat) -> char {
    if n < 10 {
        ((n + 48) as u32) as char
    } else {
        ((n + 55) as u32) as char
    }
}

/// Two upper-case hexadecimal digits of `b`.
pub open spec fn hex_byte(b: u8) -> Seq<char> {
    seq![upper_hex_digit(b as nat / 16), upper_hex_digit(b as nat % 16)]
}

/// `#RRGGBBAA` text of a colour, upper-case.
pub open spec fn hex_rgba_text(c: Color) -> Seq<char> {
    seq!['#'] + hex_byte(c.r) + hex_byte(c.g) + hex_byte(c.b) + hex_byte(c.a)
}

/// Channel of `fg` drawn with `alpha` over `bg`, rounded to nearest.
pub open spec fn blend_channel(fg: u8, bg: u8, alpha: u8) -> u8 {
    ((fg as int * alpha as int + bg as int * (255 - alpha as int) + 127) / 255) as u8
}

fn exec_blend_channel(fg: u8, bg: u8, alpha: u8) -> (v: u8)
    ensures
        v == blend_channel(fg, bg, alpha),
{
    let a = alpha as u16;
    let inv = 255u16 - a;
    assert(fg as u16 * a + bg as u16 * inv + 127 <= 65152) by (nonlinear_arith)
        requires
            a <= 255,
            inv == 255 - a,
            fg <= 255,
            bg <= 255,
    ;
    let n = fg as u16 * a + bg as u16 * inv + 127;
    assert(n / 255 <= 255) by (nonlinear_arith)
        requires
            n <= 65152,
    ;
    (n / 255) as u8
}

fn hex_digit_upper(n: u8) -> (c: char)
    requires
        n < 16,
    ensures
        c == upper_hex_digit(n as nat),
{
    if n < 10 {
        let b: u8 = n + 48;
        b as char
    } else {
        let b: u8 = n + 55;
        b as char
    }
}

fn push_hex_byte(s: &mut String, b: u8)
    ensures
        final(s)@ == old(s)@ + hex_byte(b),
{
    push_char(s, hex_digit_upper(b / 16));
    push_char(s, hex_digit_upper(b % 16));
    assert(old(s)@.push(upper_hex_digit(b as nat / 16)).push(upper_hex_digit(b as nat % 16))
        == old(s)@ + hex_byte(b));
}

proof fn lemma_strip_hashes_skip(s: Seq<char>, i: int)
    requires
        0 <= i <= s.len(),
        forall|k: int| 0 <= k < i ==> #[trigger] s[k] == '#',
    ensures
        strip_hashes(s) == strip_hashes(s.skip(i)),
    decreases i,
{
    if i > 0 {
        lemma_strip_hashes_skip(s.drop_first(), i - 1);
        assert(s.drop_first().skip(i - 1) == s.skip(i));
    } else {
        assert(s.skip(0) == s);
    }
}

/// Reads `n` pieces of `h` starting at `pos`.
fn read_pieces(h: &Vec<char>, pos: usize, end: usize, n: usize) -> (r: Option<Vec<u8>>)
    requires
        pos <= end <= h.len(),
        n <= 4,
        !(scan_hex_pieces(h@.subrange(pos as int, end as int), n as nat) is BadCut),
    ensures
        match scan_hex_pieces(h@.subrange(pos as int, end as int), n as nat) {
            HexScan::Parsed(v) => r is Some && r.unwrap()@ == v,
            _ => r is None,
        },
    decreases n,
{
    let ghost t = h@.subrange(pos as int, end as int);
    if n == 0 {
        return Some(Vec::new());
    }
    if pos < end && width_of(h[pos]) == 2 {
        return None;
    }
    if pos + 1 < end && width_of(h[pos]) == 1 && width_of(h[pos + 1]) == 1 {
        assert(t[0] == h@[pos as int] && t[1] == h@[pos + 1]);
        match exec_hex_pair_value(h[pos], h[pos + 1]) {
            None => None,
            Some(v) => {
                assert(t.skip(2) == h@.subrange(pos + 2, end as int));
                match read_pieces(h, pos + 2, end, n - 1) {
                    None => None,
                    Some(rest) => {
                        let mut out: Vec<u8> = Vec::new();
                        out.push(v);
                        let mut i: usize = 0;
                        while i < rest.len()
                            invariant
                                i <= rest.len(),
                                out@ == seq![v] + rest@.take(i as int),
                            decreases rest.len() - i,
                        {
                            out.push(rest[i]);
                            assert(rest@.take(i + 1) == rest@.take(i as int).push(rest@[i as int]));
                            i = i + 1;
                        }
                        assert(rest@.take(rest.len() as int) == rest@);
                        Some(out)
                    },
                }
            },
        }
    } else {
        assert(false);
        None
    }
}

/// Whether reading `n` pieces of `h` from `pos` cuts a character apart.
fn pieces_cut(h: &Vec<char>, pos: usize, end: usize, n: usize) -> (b: bool)
    requires
        pos <= end <= h.len(),
        n <= 4,
    ensures
        b == (scan_hex_pieces(h@.subrange(pos as int, end as int), n as nat) is BadCut),
    decreases n,
{
    let ghost t = h@.subrange(pos as int, end as int);
    if n == 0 {
        return false;
    }
    if pos < end && width_of(h[pos]) == 2 {
        assert(t[0] == h@[pos as int]);
        return false;
    }
    if pos < end && end - pos > 1 && width_of(h[pos]) == 1 && width_of(h[pos + 1]) == 1 {
        assert(t[0] == h@[pos as int] && t[1] == h@[pos + 1]);
        match exec_hex_pair_value(h[pos], h[pos + 1]) {
            None => false,
            Some(_) => {
                assert(t.skip(2) == h@.subrange(pos + 2, end as int));
                pieces_cut(h, pos + 2, end, n - 1)
            },
        }
    } else {
        if pos < end {
            assert(t[0] == h@[pos as int]);
        }
        if pos < end && end - pos > 1 {
            assert(t[1] == h@[pos + 1]);
        }
        true
    }
}

/// Whether reading `hex` as a colour would cut a multi-byte character apart.
pub fn hex_text_cuts_char(hex: &str) -> (b: bool)
    ensures
        b == hex_cut_panics(hex@),
{
    let chars = chars_of(hex);
    let (start, end) = trim_bounds(&chars);
    let ghost t = chars@.subrange(start as int, end as int);
    let mut s = start;
    while s < end && chars[s] == '#'
        invariant
            start <= s <= end <= chars.len(),
            t == chars@.subrange(start as int, end as int),
            forall|k: int| start <= k < s ==> #[trigger] chars@[k] == '#',
        decreases end - s,
    {
        s = s + 1;
    }
    let ghost h = chars@.subrange(s as int, end as int);
    proof {
        assert forall|k: int| 0 <= k < s - start implies #[trigger] t[k] == '#' by {
            assert(t[k] == chars@[k + start]);
        }
        lemma_strip_hashes_skip(t, s - start);
        assert(t.skip(s - start) == h);
        if s < end {
            assert(h[0] == chars@[s as int]);
        }
        assert(strip_hashes(h) == h);
        assert(hex_digits_of(hex@) == h);
    }
    let mut bytes: usize = 0;
    let mut i = s;
    while i < end && bytes <= 8
        invariant
            s <= i <= end <= chars.len(),
            h == chars@.subrange(s as int, end as int),
            bytes == utf8_len(h.take(i - s)),
        decreases end - i,
    {
        proof {
            assert(h.take(i - s + 1).drop_last() == h.take(i - s));
            assert(h.take(i - s + 1).last() == chars@[i as int]);
        }
        bytes = bytes + width_of(chars[i]);
        i = i + 1;
    }
    proof {
        lemma_utf8_len_take(h, i - s);
        if i == end {
            assert(h.take(i - s) == h);
        }
    }
    if bytes != 6 && bytes != 8 || i < end {
        return false;
    }
    assert(h.take(i - s) == h);
    pieces_cut(&chars, s, end, bytes / 2)
}

impl Color {
    /// An opaque colour.
    pub fn new(r: u8, g: u8, b: u8) -> (c: Self)
        ensures
            c == (Color { r, g, b, a: 255 }),
    {
        Self { r, g, b, a: 255 }
    }

    /// A colour with the given channels.
    pub fn rgba(r: u8, g: u8, b: u8, a: u8) -> (c: Self)
        ensures
            c == (Color { r, g, b, a }),
    {
        Self { r, g, b, a }
    }

    /// Reads `#RRGGBB` or `#RRGGBBAA` text (any number of leading `#`, either
    /// case, surrounding whitespace ignored); an absent alpha is 255.
    pub fn try_from_hex(hex: &str) -> (c: Option<Self>)
        requires
            !hex_cut_panics(hex@),
        ensures
            c == parse_color(hex@),
    {
        let chars = chars_of(hex);
        let (start, end) = trim_bounds(&chars);
        let ghost t = chars@.subrange(start as int, end as int);
        let mut s = start;
        while s < end && chars[s] == '#'
            invariant
                start <= s <= end <= chars.len(),
                t == chars@.subrange(start as int, end as int),
                forall|k: int| start <= k < s ==> #[trigger] chars@[k] == '#',
            decreases end - s,
        {
            s = s + 1;
        }
        let ghost h = chars@.subrange(s as int, end as int);
        proof {
            assert forall|k: int| 0 <= k < s - start implies #[trigger] t[k] == '#' by {
                assert(t[k] == chars@[k + start]);
            }
            lemma_strip_hashes_skip(t, s - start);
            assert(t.skip(s - start) == h);
            if s < end {
                assert(h[0] == chars@[s as int]);
            }
            assert(strip_hashes(h) == h);
            assert(hex_digits_of(hex@) == h);
        }
        // Byte length of the digits, counted until it passes 8.
        let mut bytes: usize = 0;
        let mut i = s;
        while i < end && bytes <= 8
            invariant
                s <= i <= end <= chars.len(),
                h == chars@.subrange(s as int, end as int),
                bytes == utf8_len(h.take(i - s)),
            decreases end - i,
        {
            proof {
                assert(h.take(i - s + 1).drop_last() == h.take(i - s));
                assert(h.take(i - s + 1).last() == chars@[i as int]);
            }
            bytes = bytes + width_of(chars[i]);
            i = i + 1;
        }
        proof {
            lemma_utf8_len_take(h, i - s);
            if i == end {
                assert(h.take(i - s) == h);
            }
        }
        if bytes != 6 && bytes != 8 || i < end {
            return None;
        }
        assert(h.take(i - s) == h);
        let n = bytes / 2;
        match read_pieces(&chars, s, end, n) {
            None => None,
            Some(v) => {
                proof {
                    lemma_scan_len(h, n as nat);
                }
                let a = if n == 4 {
                    v[3]
                } else {
                    255
                };
                Some(Self { r: v[0], g: v[1], b: v[2], a })
            },
        }
    }

    /// The colour that `hex` denotes, or opaque black.
    pub fn from_hex(hex: &str) -> (c: Self)
        requires
            !hex_cut_panics(hex@),
        ensures
            c == (match parse_color(hex@) {
                Some(p) => p,
                None => Color { r: 0, g: 0, b: 0, a: 255 },
            }),
    {
        match Self::try_from_hex(hex) {
            Some(c) => c,
            None => Self::rgba(0, 0, 0, 255),
        }
    }

    /// `#RRGGBBAA` text of the colour, upper-case.
    pub fn to_hex_rgba(self) -> (s: String)
        ensures
            s@ == hex_rgba_text(self),
    {
        let mut s = String::new();
        push_char(&mut s, '#');
        push_hex_byte(&mut s, self.r);
        push_hex_byte(&mut s, self.g);
        push_hex_byte(&mut s, self.b);
        push_hex_byte(&mut s, self.a);
        s
    }

    /// `COLORREF` value of the colour (alpha dropped).
    pub fn to_colorref(self) -> (v: u32)
        ensures
            v == colorref_value(self.r, self.g, self.b),
    {
        colorref(self.r, self.g, self.b)
    }

    /// This colour drawn over `background`: opaque result, each channel the
    /// alpha-weighted mix rounded to nearest.
    pub fn blend_over(self, background: Self) -> (c: Self)
        ensures
            self.a == 255 ==> c == (Color { r: self.r, g: self.g, b: self.b, a: 255 }),
            self.a != 255 ==> c == (Color {
                r: blend_channel(self.r, background.r, self.a),
                g: blend_channel(self.g, background.g, self.a),
                b: blend_channel(self.b, background.b, self.a),
                a: 255,
            }),
    {
        if self.a == 255 {
            return Self::rgba(self.r, self.g, self.b, 255);
        }
        Self::rgba(
            exec_blend_channel(self.r, background.r, self.a),
            exec_blend_channel(self.g, background.g, self.a),
            exec_blend_channel(self.b, background.b, self.a),
            255,
        )
    }
}

proof fn lemma_scan_len(h: Seq<char>, n: nat)
    ensures
        scan_hex_pieces(h, n) matches HexScan::Parsed(v) ==> v.len() == n,
    decreases n,
{
    if n > 0 && h.len() >= 2 {
        lemma_scan_len(h.skip(2), (n - 1) as nat);
    }
}


proof fn lemma_upper_hex_digit(n: nat)
    requires
        n < 16,
    ensures
        hex_value(upper_hex_digit(n)) == Some(n as u8),
        upper_hex_digit(n) != '+',
        upper_hex_digit(n) != '#',
        !is_whitespace(upper_hex_digit(n)),
        utf8_width(upper_hex_digit(n)) == 1,
{
}

proof fn lemma_hex_byte_pair(b: u8)
    ensures
        hex_pair_value(hex_byte(b)[0], hex_byte(b)[1]) == Some(b),
{
    lemma_upper_hex_digit(b as nat / 16);
    lemma_upper_hex_digit(b as nat % 16);
}

/// Law: the `#RRGGBBAA` text of a colour reads back as that colour, and
/// reading it never cuts a character apart.
pub proof fn lemma_hex_rgba_round_trip(c: Color)
    ensures
        !hex_cut_panics(hex_rgba_text(c)),
        parse_color(hex_rgba_text(c)) == Some(c),
{
    let t = hex_rgba_text(c);
    let d = t.drop_first();
    assert(t.len() == 9);
    lemma_upper_hex_digit(c.r as nat / 16);
    lemma_upper_hex_digit(c.r as nat % 16);
    lemma_upper_hex_digit(c.g as nat / 16);
    lemma_upper_hex_digit(c.g as nat % 16);
    lemma_upper_hex_digit(c.b as nat / 16);
    lemma_upper_hex_digit(c.b as nat % 16);
    lemma_upper_hex_digit(c.a as nat / 16);
    lemma_upper_hex_digit(c.a as nat % 16);
    lemma_hex_byte_pair(c.r);
    lemma_hex_byte_pair(c.g);
    lemma_hex_byte_pair(c.b);
    lemma_hex_byte_pair(c.a);
    assert(t[0] == '#');
    assert(t[8] == hex_byte(c.a)[1]);
    assert(trim_start(t) == t);
    assert(trim_end(t) == t);
    assert(trim(t) == t);
    assert(d[0] == hex_byte(c.r)[0]);
    assert(strip_hashes(d) == d);
    assert(strip_hashes(t) == d);
    assert(hex_digits_of(t) == d);
    assert forall|k: int| 0 <= k < d.len() implies utf8_width(#[trigger] d[k]) == 1 by {
        assert(d[k] == t[k + 1]);
    }
    lemma_utf8_len_ge_len(d);
    assert(utf8_len(d) == 8);
    let d2 = d.skip(2);
    let d4 = d2.skip(2);
    let d6 = d4.skip(2);
    assert(d[0] == hex_byte(c.r)[0] && d[1] == hex_byte(c.r)[1]);
    assert(d2[0] == hex_byte(c.g)[0] && d2[1] == hex_byte(c.g)[1]);
    assert(d4[0] == hex_byte(c.b)[0] && d4[1] == hex_byte(c.b)[1]);
    assert(d6[0] == hex_byte(c.a)[0] && d6[1] == hex_byte(c.a)[1]);
    assert(scan_hex_pieces(d6.skip(2), 0) == HexScan::Parsed(seq![]));
    assert(scan_hex_pieces(d6, 1) == HexScan::Parsed(seq![c.a]));
    assert(scan_hex_pieces(d4, 2) == HexScan::Parsed(seq![c.b] + seq![c.a]));
    assert(seq![c.b] + seq![c.a] == seq![c.b, c.a]);
    assert(scan_hex_pieces(d2, 3) == HexScan::Parsed(seq![c.g] + seq![c.b, c.a]));
    assert(seq![c.g] + seq![c.b, c.a] == seq![c.g, c.b, c.a]);
    assert(scan_hex_pieces(d, 4) == HexScan::Parsed(seq![c.r] + seq![c.g, c.b, c.a]));
    assert(seq![c.r] + seq![c.g, c.b, c.a] == seq![c.r, c.g, c.b, c.a]);
    assert(hex_scan(t) == HexScan::Parsed(seq![c.r, c.g, c.b, c.a]));
}


/// Trimming leaves text alone that neither starts nor ends with whitespace,
/// and takes off whitespace around it.
proof fn lemma_trim_around(ws1: Seq<char>, t: Seq<char>, ws2: Seq<char>)
    requires
        t.len() > 0,
        !is_whitespace(t[0]),
        !is_whitespace(t.last()),
        forall|k: int| 0 <= k < ws1.len() ==> is_whitespace(#[trigger] ws1[k]),
        forall|k: int| 0 <= k < ws2.len() ==> is_whitespace(#[trigger] ws2[k]),
    ensures
        trim(ws1 + t + ws2) == t,
{
    let s = ws1 + t + ws2;
    assert forall|k: int| 0 <= k < ws1.len() implies is_whitespace(#[trigger] s[k]) by {
        assert(s[k] == ws1[k]);
    }
    lemma_trim_start_skip(s, ws1.len() as int);
    let u = t + ws2;
    assert(s.skip(ws1.len() as int) == u);
    assert(u[0] == t[0]);
    assert(trim_start(u) == u);
    assert forall|k: int| t.len() <= k < u.len() implies is_whitespace(#[trigger] u[k]) by {
        assert(u[k] == ws2[k - t.len()]);
    }
    lemma_trim_end_take(u, t.len() as int);
    assert(u.take(t.len() as int) == t);
    assert(t.last() == t[t.len() - 1]);
    assert(trim_end(t) == t);
}

/// Law: a colour's `#RRGGBBAA` text reads back as the colour with whitespace
/// around it and without its `#`; its `#RRGGBB` text reads back as the colour
/// made opaque.
pub proof fn lemma_hex_text_forms(c: Color, ws1: Seq<char>, ws2: Seq<char>)
    requires
        forall|k: int| 0 <= k < ws1.len() ==> is_whitespace(#[trigger] ws1[k]),
        forall|k: int| 0 <= k < ws2.len() ==> is_whitespace(#[trigger] ws2[k]),
    ensures
        parse_color(ws1 + hex_rgba_text(c) + ws2) == Some(c),
        parse_color(hex_rgba_text(c).drop_first()) == Some(c),
        parse_color(seq!['#'] + hex_byte(c.r) + hex_byte(c.g) + hex_byte(c.b)) == Some(
            Color { a: 255, ..c },
        ),
{
    lemma_hex_rgba_round_trip(c);
    let t = hex_rgba_text(c);
    let d = t.drop_first();
    lemma_upper_hex_digit(c.r as nat / 16);
    lemma_upper_hex_digit(c.r as nat % 16);
    lemma_upper_hex_digit(c.g as nat / 16);
    lemma_upper_hex_digit(c.g as nat % 16);
    lemma_upper_hex_digit(c.b as nat / 16);
    lemma_upper_hex_digit(c.b as nat % 16);
    lemma_upper_hex_digit(c.a as nat / 16);
    lemma_upper_hex_digit(c.a as nat % 16);
    lemma_hex_byte_pair(c.r);
    lemma_hex_byte_pair(c.g);
    lemma_hex_byte_pair(c.b);
    assert(t.len() == 9);
    assert(t[0] == '#');
    assert(t.last() == hex_byte(c.a)[1]);
    lemma_trim_around(ws1, t, ws2);
    assert(hex_digits_of(ws1 + t + ws2) == hex_digits_of(t));

    let e: Seq<char> = seq![];
    assert(d[0] == hex_byte(c.r)[0]);
    assert(d.last() == hex_byte(c.a)[1]);
    lemma_trim_around(e, d, e);
    assert(e + d + e == d);
    assert(strip_hashes(d) == d);
    assert(strip_hashes(t) == d);
    assert(hex_digits_of(d) == hex_digits_of(t));

    let t6 = seq!['#'] + hex_byte(c.r) + hex_byte(c.g) + hex_byte(c.b);
    let d6 = t6.drop_first();
    assert(t6.len() == 7);
    assert(t6.last() == hex_byte(c.b)[1]);
    lemma_trim_around(e, t6, e);
    assert(e + t6 + e == t6);
    assert(d6[0] == hex_byte(c.r)[0]);
    assert(strip_hashes(d6) == d6);
    assert(strip_hashes(t6) == d6);
    assert(hex_digits_of(t6) == d6);
    assert forall|k: int| 0 <= k < d6.len() implies utf8_width(#[trigger] d6[k]) == 1 by {
        assert(d6[k] == t6[k + 1]);
    }
    lemma_utf8_len_ge_len(d6);
    assert(utf8_len(d6) == 6);
    let p2 = d6.skip(2);
    let p4 = p2.skip(2);
    assert(d6[0] == hex_byte(c.r)[0] && d6[1] == hex_byte(c.r)[1]);
    assert(p2[0] == hex_byte(c.g)[0] && p2[1] == hex_byte(c.g)[1]);
    assert(p4[0] == hex_byte(c.b)[0] && p4[1] == hex_byte(c.b)[1]);
    assert(scan_hex_pieces(p4.skip(2), 0) == HexScan::Parsed(seq![]));
    assert(scan_hex_pieces(p4, 1) == HexScan::Parsed(seq![c.b]));
    assert(scan_hex_pieces(p2, 2) == HexScan::Parsed(seq![c.g] + seq![c.b]));
    assert(seq![c.g] + seq![c.b] == seq![c.g, c.b]);
    assert(scan_hex_pieces(d6, 3) == HexScan::Parsed(seq![c.r] + seq![c.g, c.b]));
    assert(seq![c.r] + seq![c.g, c.b] == seq![c.r, c.g, c.b]);
    assert(hex_scan(t6) == HexScan::Parsed(seq![c.r, c.g, c.b]));
}

/// `c` is an ASCII character.
pub open spec fn is_ascii_char(c: char) -> bool {
    (c as u32) < 0x80
}

/// Every character of `s` is ASCII (one UTF-8 byte).
pub open spec fn all_ascii(s: Seq<char>) -> bool {
    forall|k: int| 0 <= k < s.len() ==> is_ascii_char(#[trigger] s[k])
}

proof fn lemma_all_ascii_drop_first(s: Seq<char>)
    requires
        all_ascii(s),
        s.len() > 0,
    ensures
        all_ascii(s.drop_first()),
{
    assert forall|k: int| 0 <= k < s.drop_first().len() implies is_ascii_char(
        #[trigger] s.drop_first()[k],
    ) by {
        assert(s.drop_first()[k] == s[k + 1]);
    }
}

proof fn lemma_all_ascii_trim(s: Seq<char>)
    requires
        all_ascii(s),
    ensures
        all_ascii(trim_start(s)),
        all_ascii(trim_end(s)),
        all_ascii(strip_hashes(s)),
    decreases s.len(),
{
    if s.len() > 0 {
        lemma_all_ascii_drop_first(s);
        lemma_all_ascii_trim(s.drop_first());
        assert forall|k: int| 0 <= k < s.drop_last().len() implies is_ascii_char(
            #[trigger] s.drop_last()[k],
        ) by {
            assert(s.drop_last()[k] == s[k]);
        }
        lemma_all_ascii_trim(s.drop_last());
    }
}

proof fn lemma_scan_ascii_no_cut(h: Seq<char>, n: nat)
    requires
        all_ascii(h),
        h.len() == 2 * n,
    ensures
        !(scan_hex_pieces(h, n) is BadCut),
    decreases n,
{
    if n > 0 {
        assert(is_ascii_char(h[0]) && is_ascii_char(h[1]));
        let t = h.skip(2);
        assert forall|k: int| 0 <= k < t.len() implies is_ascii_char(#[trigger] t[k]) by {
            assert(t[k] == h[k + 2]);
        }
        lemma_scan_ascii_no_cut(t, (n - 1) as nat);
    }
}

/// Law: reading ASCII text as a colour never cuts a character apart.
pub proof fn lemma_ascii_hex_never_panics(s: Seq<char>)
    requires
        all_ascii(s),
    ensures
        !hex_cut_panics(s),
{
    lemma_all_ascii_trim(s);
    lemma_all_ascii_trim(trim_start(s));
    lemma_all_ascii_trim(trim(s));
    let h = hex_digits_of(s);
    assert forall|k: int| 0 <= k < h.len() implies utf8_width(#[trigger] h[k]) == 1 by {}
    lemma_utf8_len_ge_len(h);
    if utf8_len(h) == 6 || utf8_len(h) == 8 {
        lemma_scan_ascii_no_cut(h, utf8_len(h) / 2);
    }
}

} // verus!
