//! Vocabulary of the terminal interpreter: colours, modes, charsets and
//! the colour specifications of OSC and SGR sequences.
use vstd::prelude::*;

verus! {

/// A hyperlink, as set by OSC 8.
#[derive(Debug, PartialEq, Eq, Hash)]
pub struct Hyperlink {
    /// Identifier for the given hyperlink.
    pub id: Option<String>,
    /// Resource identifier of the hyperlink.
    pub uri: String,
}

/// A true colour.
#[derive(Debug, Eq, PartialEq, Structural, Copy, Clone, Default)]
pub struct Rgb {
    pub r: u8,
    pub g: u8,
    pub b: u8,
}

/// `a + b`, saturating at 255.
pub open spec fn sat_add_u8(a: u8, b: u8) -> u8 {
    if a + b > 255 {
        255
    } else {
        (a + b) as u8
    }
}

/// `a - b`, saturating at 0.
pub open spec fn sat_sub_u8(a: u8, b: u8) -> u8 {
    if a < b {
        0
    } else {
        (a - b) as u8
    }
}

impl core::ops::Add<Rgb> for Rgb {
    type Output = Rgb;

    fn add(self, rhs: Rgb) -> Rgb {
        Rgb {
            r: self.r.saturating_add(rhs.r),
            g: self.g.saturating_add(rhs.g),
            b: self.b.saturating_add(rhs.b),
        }
    }
}

impl vstd::std_specs::ops::AddSpecImpl<Rgb> for Rgb {
    open spec fn obeys_add_spec() -> bool {
        true
    }

    open spec fn add_req(self, rhs: Rgb) -> bool {
        true
    }

    /// Channel-wise sum, saturating at 255.
    open spec fn add_spec(self, rhs: Rgb) -> Rgb {
        Rgb {
            r: sat_add_u8(self.r, rhs.r),
            g: sat_add_u8(self.g, rhs.g),
            b: sat_add_u8(self.b, rhs.b),
        }
    }
}

impl core::ops::Sub<Rgb> for Rgb {
    type Output = Rgb;

    fn sub(self, rhs: Rgb) -> Rgb {
        Rgb {
            r: self.r.saturating_sub(rhs.r),
            g: self.g.saturating_sub(rhs.g),
            b: self.b.saturating_sub(rhs.b),
        }
    }
}

impl vstd::std_specs::ops::SubSpecImpl<Rgb> for Rgb {
    open spec fn obeys_sub_spec() -> bool {
        true
    }

    open spec fn sub_req(self, rhs: Rgb) -> bool {
        true
    }

    /// Channel-wise difference, saturating at 0.
    open spec fn sub_spec(self, rhs: Rgb) -> Rgb {
        Rgb {
            r: sat_sub_u8(self.r, rhs.r),
            g: sat_sub_u8(self.g, rhs.g),
            b: sat_sub_u8(self.b, rhs.b),
        }
    }
}

/// The value of a hexadecimal digit, or -1 for any other byte.
pub open spec fn hex_digit(b: u8) -> int {
    if 0x30 <= b <= 0x39 {
        b - 0x30
    } else if 0x61 <= b <= 0x66 {
        b - 0x61 + 10
    } else if 0x41 <= b <= 0x46 {
        b - 0x41 + 10
    } else {
        -1
    }
}

/// Whether every byte of `s` is a digit of the given radix (at most 16).
pub open spec fn is_digits(s: Seq<u8>, radix: nat) -> bool {
    forall|i: int| 0 <= i < s.len() ==> 0 <= #[trigger] hex_digit(s[i]) < radix
}

/// The value of the digits `s` in the given radix.
pub open spec fn digits_value(s: Seq<u8>, radix: nat) -> nat
    decreases s.len(),
{
    if s.len() == 0 {
        0
    } else {
        digits_value(s.drop_last(), radix) * radix + hex_digit(s.last()) as nat
    }
}

/// An unsigned integer in radix 16, as the standard library reads one: an
/// optional `+`, then at least one hexadecimal digit.
pub open spec fn radix16(s: Seq<u8>) -> Option<nat> {
    let digits = if s.len() > 0 && s[0] == 0x2b {
        s.drop_first()
    } else {
        s
    };
    if digits.len() > 0 && is_digits(digits, 16) {
        Some(digits_value(digits, 16))
    } else {
        None
    }
}

/// `16` to the power `n`.
pub open spec fn pow16(n: nat) -> nat
    decreases n,
{
    if n == 0 {
        1
    } else {
        16 * pow16((n - 1) as nat)
    }
}

/// A value below the next power of the radix.
proof fn lemma_digits_bound(s: Seq<u8>)
    requires
        is_digits(s, 16),
    ensures
        digits_value(s, 16) < pow16(s.len()),
    decreases s.len(),
{
    if s.len() > 0 {
        let p = s.drop_last();
        assert(is_digits(p, 16)) by {
            assert forall|i: int| 0 <= i < p.len() implies 0 <= #[trigger] hex_digit(p[i]) < 16 by {
                assert(p[i] == s[i]);
            }
        }
        lemma_digits_bound(p);
        assert(0 <= hex_digit(s[s.len() - 1]) < 16);
        let a = digits_value(p, 16);
        let x = hex_digit(s.last());
        let q = pow16(p.len());
        assert(pow16(s.len()) == 16 * q);
        assert(a * 16 + x < 16 * q) by (nonlinear_arith)
            requires
                a < q,
                0 <= x < 16,
        ;
    }
}

/// More digits never make a smaller value.
proof fn lemma_digits_monotone(s: Seq<u8>, i: int, radix: nat)
    requires
        0 <= i <= s.len(),
        radix >= 1,
        is_digits(s, radix),
    ensures
        digits_value(s.subrange(0, i), radix) <= digits_value(s, radix),
    decreases s.len() - i,
{
    if i < s.len() {
        let p = s.drop_last();
        assert(is_digits(p, radix)) by {
            assert forall|k: int| 0 <= k < p.len() implies 0 <= #[trigger] hex_digit(p[k]) < radix by {
                assert(p[k] == s[k]);
            }
        }
        lemma_digits_monotone(p, i, radix);
        assert(p.subrange(0, i) =~= s.subrange(0, i));
        assert(0 <= hex_digit(s[s.len() - 1]));
        assert(digits_value(p, radix) <= digits_value(s, radix)) by (nonlinear_arith)
            requires
                digits_value(s, radix) == digits_value(p, radix) * radix + hex_digit(s.last()) as nat,
                radix >= 1,
        ;
    } else {
        assert(s.subrange(0, i) =~= s);
    }
}

/// Reads the digits `s[start..end]` in the given radix, or `None` where one
/// is no digit or the value exceeds `limit`.
fn parse_digits(s: &[u8], start: usize, end: usize, radix: u64, limit: u64) -> (r: Option<u64>)
    requires
        start <= end <= s@.len(),
        1 <= radix <= 16,
    ensures
        r == (if is_digits(s@.subrange(start as int, end as int), radix as nat) && digits_value(
            s@.subrange(start as int, end as int),
            radix as nat,
        ) <= limit {
            Some(digits_value(s@.subrange(start as int, end as int), radix as nat) as u64)
        } else {
            None
        }),
{
    let ghost full = s@.subrange(start as int, end as int);
    let mut v: u64 = 0;
    let mut i: usize = start;
    assert(s@.subrange(start as int, start as int) =~= seq![]);
    while i < end
        invariant
            start <= i <= end <= s@.len(),
            1 <= radix <= 16,
            full == s@.subrange(start as int, end as int),
            is_digits(s@.subrange(start as int, i as int), radix as nat),
            v == digits_value(s@.subrange(start as int, i as int), radix as nat),
            v <= limit,
        decreases end - i,
    {
        let ghost prev = s@.subrange(start as int, i as int);
        let ghost next = s@.subrange(start as int, i + 1);
        assert(next.drop_last() =~= prev);
        assert(next.last() == s@[i as int]);
        let b = s[i];
        let d: u64 = if 0x30 <= b && b <= 0x39 {
            (b - 0x30) as u64
        } else if 0x61 <= b && b <= 0x66 {
            (b - 0x61 + 10) as u64
        } else if 0x41 <= b && b <= 0x46 {
            (b - 0x41 + 10) as u64
        } else {
            16
        };
        assert(d == hex_digit(b) || (hex_digit(b) == -1 && d == 16));
        if d >= radix {
            assert(!is_digits(full, radix as nat)) by {
                assert(full[i - start] == b);
                assert(!(0 <= hex_digit(full[i - start]) < radix));
            }
            return None;
        }
        assert(is_digits(next, radix as nat)) by {
            assert forall|k: int| 0 <= k < next.len() implies 0 <= #[trigger] hex_digit(next[k]) < radix by {
                if k < prev.len() {
                    assert(next[k] == prev[k]);
                }
            }
        }
        let grown = match v.checked_mul(radix) {
            Some(m) => m.checked_add(d),
            None => None,
        };
        match grown {
            Some(n) if n <= limit => {
                v = n;
            },
            _ => {
                proof {
                    assert(digits_value(next, radix as nat) > limit) by (nonlinear_arith)
                        requires
                            digits_value(next, radix as nat) == v * radix + d,
                            grown.is_none() || grown.unwrap() > limit,
                            grown.is_some() ==> grown.unwrap() == v * radix + d,
                            grown.is_none() ==> v * radix + d > u64::MAX,
                            limit <= u64::MAX,
                    ;
                    if is_digits(full, radix as nat) {
                        lemma_digits_monotone(full, (i + 1 - start) as int, radix as nat);
                        assert(full.subrange(0, (i + 1 - start) as int) =~= next);
                    }
                }
                return None;
            },
        }
        i = i + 1;
    }
    assert(full =~= s@.subrange(start as int, i as int));
    Some(v)
}

/// Reads `s[start..end]` as the standard library reads an unsigned integer
/// in radix 16, refusing values above `limit`.
fn parse_radix16(s: &[u8], start: usize, end: usize, limit: u64) -> (r: Option<u64>)
    requires
        start <= end <= s@.len(),
    ensures
        r == (match radix16(s@.subrange(start as int, end as int)) {
            Some(v) => if v <= limit {
                Some(v as u64)
            } else {
                None
            },
            None => None,
        }),
{
    let ghost t = s@.subrange(start as int, end as int);
    let first = if start < end && s[start] == 0x2b {
        start + 1
    } else {
        start
    };
    assert(s@.subrange(first as int, end as int) =~= (if t.len() > 0 && t[0] == 0x2b {
        t.drop_first()
    } else {
        t
    }));
    if first == end {
        return None;
    }
    parse_digits(s, first, end, 16, limit)
}

/// Scales a channel of one to four hexadecimal digits to eight bits.
pub open spec fn scaled_channel(part: Seq<u8>) -> Option<u8> {
    if part.len() > 4 {
        None
    } else {
        match radix16(part) {
            Some(v) => Some((255 * v / ((pow16(part.len()) - 1) as nat)) as u8),
            None => None,
        }
    }
}

/// The first index at or after `from` where `s` holds `b`, or `s.len()`.
pub open spec fn find_byte(s: Seq<u8>, b: u8, from: int) -> int
    decreases s.len() - from,
{
    if from >= s.len() {
        s.len() as int
    } else if s[from] == b {
        from
    } else {
        find_byte(s, b, from + 1)
    }
}

/// A colour in the format `rgb:r(rrr)/g(ggg)/b(bbb)`, after its `rgb:`.
pub open spec fn rgb_color(s: Seq<u8>) -> Option<Rgb> {
    let i = find_byte(s, 0x2f, 0);
    let j = find_byte(s, 0x2f, i + 1);
    let k = find_byte(s, 0x2f, j + 1);
    if i < s.len() && j < s.len() && k == s.len() {
        match (
            scaled_channel(s.subrange(0, i)),
            scaled_channel(s.subrange(i + 1, j)),
            scaled_channel(s.subrange(j + 1, s.len() as int)),
        ) {
            (Some(r), Some(g), Some(b)) => Some(Rgb { r, g, b }),
            _ => None,
        }
    } else {
        None
    }
}

/// One channel of a colour in the format `#r(rrr)g(ggg)b(bbb)`, cut or
/// padded to two hexadecimal digits. Channels over sixteen digits are
/// refused.
pub open spec fn legacy_channel(part: Seq<u8>) -> Option<u8> {
    match radix16(part) {
        Some(v) => if v <= u64::MAX && part.len() <= 16 {
            Some((((v as u64) << 4u64) >> ((4 * (part.len() - 1)) as u64)) as u8)
        } else {
            None
        },
        None => None,
    }
}

/// A colour in the format `#r(rrr)g(ggg)b(bbb)`, after its `#`: three
/// channels of a third of the length each, the last one taking the rest.
pub open spec fn legacy_color(s: Seq<u8>) -> Option<Rgb> {
    let n: int = (s.len() / 3) as int;
    match (
        legacy_channel(s.subrange(0, n)),
        legacy_channel(s.subrange(n, 2 * n)),
        legacy_channel(s.subrange(2 * n, s.len() as int)),
    ) {
        (Some(r), Some(g), Some(b)) => Some(Rgb { r, g, b }),
        _ => None,
    }
}

/// A colour in XParseColor format: `#` and hexadecimal digits, or `rgb:`
/// and channels separated by `/`.
pub open spec fn xparsed_color(s: Seq<u8>) -> Option<Rgb> {
    if s.len() > 0 && s[0] == 0x23 {
        legacy_color(s.drop_first())
    } else if s.len() >= 4 && s.subrange(0, 4) == seq![0x72u8, 0x67u8, 0x62u8, 0x3au8] {
        rgb_color(s.subrange(4, s.len() as int))
    } else {
        None
    }
}

fn find_byte_from(s: &[u8], b: u8, from: usize) -> (r: usize)
    requires
        from <= s@.len(),
    ensures
        r == find_byte(s@, b, from as int),
        from <= r <= s@.len(),
{
    let mut i = from;
    proof {
        lemma_find_bounds(s@, b, from as int);
    }
    while i < s.len() && s[i] != b
        invariant
            from <= i <= s@.len(),
            find_byte(s@, b, from as int) == find_byte(s@, b, i as int),
        decreases s@.len() - i,
    {
        i = i + 1;
    }
    i
}

fn scale_channel(s: &[u8], start: usize, end: usize) -> (r: Option<u8>)
    requires
        start <= end <= s@.len(),
    ensures
        r == scaled_channel(s@.subrange(start as int, end as int)),
{
    let len = end - start;
    if len > 4 {
        return None;
    }
    let ghost part = s@.subrange(start as int, end as int);
    proof {
        reveal_with_fuel(pow16, 5);
        let digits = if part.len() > 0 && part[0] == 0x2b {
            part.drop_first()
        } else {
            part
        };
        if digits.len() > 0 && is_digits(digits, 16) {
            lemma_digits_bound(digits);
            assert(pow16(digits.len()) <= pow16(part.len())) by {
                if digits.len() < part.len() {
                    assert(pow16(part.len()) == 16 * pow16(digits.len()));
                }
            }
        }
    }
    match parse_radix16(s, start, end, 0xffff) {
        Some(v) => {
            let max: u64 = if len == 1 {
                16
            } else if len == 2 {
                256
            } else if len == 3 {
                4096
            } else {
                65536
            };
            assert(max == pow16(len as nat)) by {
                reveal_with_fuel(pow16, 5);
            }
            let scaled = 255 * v / (max - 1);
            assert(scaled <= 255) by (nonlinear_arith)
                requires
                    scaled == 255 * v / (max - 1),
                    v <= max - 1,
                    max - 1 >= 1,
            ;
            Some(scaled as u8)
        },
        None => None,
    }
}

fn rgb_color_at(s: &[u8], start: usize) -> (r: Option<Rgb>)
    requires
        start <= s@.len(),
    ensures
        r == rgb_color(s@.subrange(start as int, s@.len() as int)),
{
    let ghost t = s@.subrange(start as int, s@.len() as int);
    let i = find_byte_from(s, 0x2f, start);
    proof {
        lemma_find_shift(s@, 0x2f, start as int, 0);
    }
    if i >= s.len() {
        return None;
    }
    let j = find_byte_from(s, 0x2f, i + 1);
    proof {
        lemma_find_shift(s@, 0x2f, start as int, (i + 1 - start) as int);
    }
    if j >= s.len() {
        return None;
    }
    let k = find_byte_from(s, 0x2f, j + 1);
    proof {
        lemma_find_shift(s@, 0x2f, start as int, (j + 1 - start) as int);
    }
    if k < s.len() {
        return None;
    }
    assert(t.subrange(0, (i - start) as int) =~= s@.subrange(start as int, i as int));
    assert(t.subrange((i - start) as int + 1, (j - start) as int) =~= s@.subrange(i + 1, j as int));
    assert(t.subrange((j - start) as int + 1, t.len() as int) =~= s@.subrange(
        j + 1,
        s@.len() as int,
    ));
    let r = scale_channel(s, start, i);
    let g = scale_channel(s, i + 1, j);
    let b = scale_channel(s, j + 1, s.len());
    match (r, g, b) {
        (Some(r), Some(g), Some(b)) => Some(Rgb { r, g, b }),
        _ => None,
    }
}

/// A search ends between its start and the end.
proof fn lemma_find_bounds(s: Seq<u8>, b: u8, from: int)
    requires
        0 <= from <= s.len(),
    ensures
        from <= find_byte(s, b, from) <= s.len(),
    decreases s.len() - from,
{
    if from < s.len() {
        lemma_find_bounds(s, b, from + 1);
    }
}

/// Searching a suffix finds what searching the whole finds, shifted.
proof fn lemma_find_shift(s: Seq<u8>, b: u8, start: int, from: int)
    requires
        0 <= start <= s.len(),
        0 <= from <= s.len() - start,
    ensures
        find_byte(s.subrange(start, s.len() as int), b, from) == find_byte(s, b, start + from)
            - start,
    decreases s.len() - start - from,
{
    if from < s.len() - start {
        lemma_find_shift(s, b, start, from + 1);
    }
}

fn legacy_channel_at(s: &[u8], start: usize, end: usize) -> (r: Option<u8>)
    requires
        start <= end <= s@.len(),
    ensures
        r == legacy_channel(s@.subrange(start as int, end as int)),
{
    match parse_radix16(s, start, end, u64::MAX) {
        Some(v) => {
            let len = end - start;
            if len > 16 {
                None
            } else {
                Some(((v << 4u64) >> ((4 * (len - 1)) as u64)) as u8)
            }
        },
        None => None,
    }
}

fn legacy_color_at(s: &[u8], start: usize) -> (r: Option<Rgb>)
    requires
        start <= s@.len(),
    ensures
        r == legacy_color(s@.subrange(start as int, s@.len() as int)),
{
    let ghost t = s@.subrange(start as int, s@.len() as int);
    let n = (s.len() - start) / 3;
    assert(t.subrange(0, n as int) =~= s@.subrange(start as int, (start + n) as int));
    assert(t.subrange(n as int, 2 * n) =~= s@.subrange((start + n) as int, (start + 2 * n) as int));
    assert(t.subrange(2 * n, t.len() as int) =~= s@.subrange(
        (start + 2 * n) as int,
        s@.len() as int,
    ));
    let r = legacy_channel_at(s, start, start + n);
    let g = legacy_channel_at(s, start + n, start + 2 * n);
    let b = legacy_channel_at(s, start + 2 * n, s.len());
    match (r, g, b) {
        (Some(r), Some(g), Some(b)) => Some(Rgb { r, g, b }),
        _ => None,
    }
}

/// Parses a colour in XParseColor format (`#rgb`, `#rrggbb`, ...,
/// `rgb:r/g/b`, ...).
pub fn xparse_color(color: &[u8]) -> (r: Option<Rgb>)
    ensures
        r == xparsed_color(color@),
{
    if color.len() > 0 && color[0] == 0x23 {
        assert(color@.subrange(1, color@.len() as int) =~= color@.drop_first());
        legacy_color_at(color, 1)
    } else if color.len() >= 4 && color[0] == 0x72 && color[1] == 0x67 && color[2] == 0x62
        && color[3] == 0x3a {
        assert(color@.subrange(0, 4) =~= seq![0x72u8, 0x67u8, 0x62u8, 0x3au8]);
        rgb_color_at(color, 4)
    } else {
        proof {
            if color@.len() >= 4 && color@.subrange(0, 4) == seq![0x72u8, 0x67u8, 0x62u8, 0x3au8] {
                assert(color@[0] == color@.subrange(0, 4)[0]);
                assert(color@[1] == color@.subrange(0, 4)[1]);
                assert(color@[2] == color@.subrange(0, 4)[2]);
                assert(color@[3] == color@.subrange(0, 4)[3]);
            }
        }
        None
    }
}

/// Parses colours in the format `rgb:r(rrr)/g(ggg)/b(bbb)`, given without
/// the `rgb:`.
pub fn parse_rgb_color(color: &[u8]) -> (r: Option<Rgb>)
    ensures
        r == rgb_color(color@),
{
    assert(color@.subrange(0, color@.len() as int) =~= color@);
    rgb_color_at(color, 0)
}

/// Parses colours in the format `#r(rrr)g(ggg)b(bbb)`, given without the
/// `#`.
pub fn parse_legacy_color(color: &[u8]) -> (r: Option<Rgb>)
    ensures
        r == legacy_color(color@),
{
    assert(color@.subrange(0, color@.len() as int) =~= color@);
    legacy_color_at(color, 0)
}

/// A decimal number that fits in a `u8`.
pub open spec fn decimal_u8(s: Seq<u8>) -> Option<u8> {
    if s.len() > 0 && is_digits(s, 10) && digits_value(s, 10) <= 255 {
        Some(digits_value(s, 10) as u8)
    } else {
        None
    }
}

/// Parses a non-empty decimal number that fits in a `u8`.
pub fn parse_number(input: &[u8]) -> (r: Option<u8>)
    ensures
        r == decimal_u8(input@),
{
    if input.len() == 0 {
        return None;
    }
    assert(input@.subrange(0, input@.len() as int) =~= input@);
    match parse_digits(input, 0, input.len(), 10, 255) {
        Some(v) => Some(v as u8),
        None => None,
    }
}

/// A colour given as `0xrrggbb` or `#rrggbb`.
pub open spec fn hex_rgb(s: Seq<u8>) -> Option<Rgb> {
    let digits = if s.len() == 8 && s[0] == 0x30 && s[1] == 0x78 {
        Some(s.subrange(2, 8))
    } else if s.len() == 7 && s[0] == 0x23 {
        Some(s.subrange(1, 7))
    } else {
        None
    };
    match digits {
        Some(d) => match radix16(d) {
            Some(v) => if v <= u32::MAX {
                Some(
                    Rgb {
                        r: (((v as u32) >> 16u32) & 0xff) as u8,
                        g: (((v as u32) >> 8u32) & 0xff) as u8,
                        b: ((v as u32) & 0xff) as u8,
                    },
                )
            } else {
                None
            },
            None => None,
        },
        None => None,
    }
}

impl Rgb {
    /// Parses a colour given as `0xrrggbb` or `#rrggbb`.
    pub fn from_hex(s: &[u8]) -> (r: Option<Rgb>)
        ensures
            r == hex_rgb(s@),
    {
        let start: usize = if s.len() == 8 && s[0] == 0x30 && s[1] == 0x78 {
            2
        } else if s.len() == 7 && s[0] == 0x23 {
            1
        } else {
            return None;
        };
        match parse_radix16(s, start, s.len(), 0xffff_ffff) {
            Some(v) => {
                let color = v as u32;
                Some(
                    Rgb {
                        r: ((color >> 16u32) & 0xff) as u8,
                        g: ((color >> 8u32) & 0xff) as u8,
                        b: (color & 0xff) as u8,
                    },
                )
            },
            None => None,
        }
    }
}

impl core::str::FromStr for Rgb {
    type Err = ();

    fn from_str(s: &str) -> Result<Rgb, ()> {
        match Rgb::from_hex(s.as_bytes()) {
            Some(c) => Ok(c),
            None => Err(()),
        }
    }
}

/// XTMODKEYS modifyOtherKeys state.
#[derive(Debug, Clone, Copy, PartialEq, Eq, Structural, Hash)]
pub enum ModifyOtherKeys {
    /// Reset the state.
    Reset,
    /// Enables this feature except for keys with well-known behavior.
    EnableExceptWellDefined,
    /// Enables this feature for all keys.
    EnableAll,
}

/// How new keyboard modes are applied.
#[derive(Debug, Default, Clone, Copy, PartialEq, Eq, Structural)]
pub enum KeyboardModesApplyBehavior {
    /// Replace the active flags with the new ones.
    #[default]
    Replace,
    /// Merge the given flags with currently active ones.
    Union,
    /// Remove the given flags from the active ones.
    Difference,
}

/// Terminal cursor configuration.
#[derive(Default, Debug, Eq, PartialEq, Structural, Copy, Clone, Hash)]
pub struct CursorStyle {
    pub shape: CursorShape,
    pub blinking: bool,
}

/// Terminal cursor shape.
#[derive(Debug, Default, Eq, PartialEq, Structural, Copy, Clone, Hash)]
pub enum CursorShape {
    /// Cursor is a block like `▒`.
    #[default]
    Block,
    /// Cursor is an underscore like `_`.
    Underline,
    /// Cursor is a vertical bar `⎸`.
    Beam,
    /// Cursor is a box like `☐`.
    HollowBlock,
    /// Invisible cursor.
    Hidden,
}

/// ANSI modes.
#[derive(Debug, Clone, Copy, Eq, PartialEq, Structural)]
pub enum NamedMode {
    /// IRM Insert Mode.
    Insert,
    LineFeedNewLine,
}

/// The number of an ANSI mode.
pub open spec fn named_mode_code(mode: NamedMode) -> u16 {
    match mode {
        NamedMode::Insert => 4,
        NamedMode::LineFeedNewLine => 20,
    }
}

/// An ANSI mode.
#[derive(Debug, Clone, Copy, Eq, PartialEq, Structural)]
pub enum Mode {
    /// Known ANSI mode.
    Named(NamedMode),
    /// Unidentified public mode.
    Unknown(u16),
}

/// The mode with a given number.
pub open spec fn mode_of(mode: u16) -> Mode {
    if mode == 4 {
        Mode::Named(NamedMode::Insert)
    } else if mode == 20 {
        Mode::Named(NamedMode::LineFeedNewLine)
    } else {
        Mode::Unknown(mode)
    }
}

impl Mode {
    /// The mode with a given number.
    pub fn new(mode: u16) -> (r: Mode)
        ensures
            r == mode_of(mode),
    {
        if mode == 4 {
            Mode::Named(NamedMode::Insert)
        } else if mode == 20 {
            Mode::Named(NamedMode::LineFeedNewLine)
        } else {
            Mode::Unknown(mode)
        }
    }

    /// The number of the mode.
    pub fn raw(self) -> (r: u16)
        ensures
            r == match self {
                Mode::Named(named) => named_mode_code(named),
                Mode::Unknown(mode) => mode,
            },
    {
        match self {
            Mode::Named(NamedMode::Insert) => 4,
            Mode::Named(NamedMode::LineFeedNewLine) => 20,
            Mode::Unknown(mode) => mode,
        }
    }
}

/// Private DEC modes.
#[derive(Debug, Clone, Copy, Eq, PartialEq, Structural)]
pub enum NamedPrivateMode {
    CursorKeys,
    ColumnMode,
    Origin,
    LineWrap,
    BlinkingCursor,
    ShowCursor,
    ReportMouseClicks,
    ReportCellMouseMotion,
    ReportAllMouseMotion,
    ReportFocusInOut,
    Utf8Mouse,
    SgrMouse,
    AlternateScroll,
    UrgencyHints,
    SwapScreenAndSetRestoreCursor,
    BracketedPaste,
    SyncUpdate,
}

/// The number of a private DEC mode.
pub open spec fn named_private_mode_code(mode: NamedPrivateMode) -> u16 {
    match mode {
        NamedPrivateMode::CursorKeys => 1,
        NamedPrivateMode::ColumnMode => 3,
        NamedPrivateMode::Origin => 6,
        NamedPrivateMode::LineWrap => 7,
        NamedPrivateMode::BlinkingCursor => 12,
        NamedPrivateMode::ShowCursor => 25,
        NamedPrivateMode::ReportMouseClicks => 1000,
        NamedPrivateMode::ReportCellMouseMotion => 1002,
        NamedPrivateMode::ReportAllMouseMotion => 1003,
        NamedPrivateMode::ReportFocusInOut => 1004,
        NamedPrivateMode::Utf8Mouse => 1005,
        NamedPrivateMode::SgrMouse => 1006,
        NamedPrivateMode::AlternateScroll => 1007,
        NamedPrivateMode::UrgencyHints => 1042,
        NamedPrivateMode::SwapScreenAndSetRestoreCursor => 1049,
        NamedPrivateMode::BracketedPaste => 2004,
        NamedPrivateMode::SyncUpdate => 2026,
    }
}

/// A private DEC mode.
#[derive(Debug, Clone, Copy, Eq, PartialEq, Structural)]
pub enum PrivateMode {
    /// Known private mode.
    Named(NamedPrivateMode),
    /// Unknown private mode.
    Unknown(u16),
}

/// The private mode with a given number.
pub open spec fn private_mode_of(mode: u16) -> PrivateMode {
        if mode == 1 {
            PrivateMode::Named(NamedPrivateMode::CursorKeys)
        } else if mode == 3 {
            PrivateMode::Named(NamedPrivateMode::ColumnMode)
        } else if mode == 6 {
            PrivateMode::Named(NamedPrivateMode::Origin)
        } else if mode == 7 {
            PrivateMode::Named(NamedPrivateMode::LineWrap)
        } else if mode == 12 {
            PrivateMode::Named(NamedPrivateMode::BlinkingCursor)
        } else if mode == 25 {
            PrivateMode::Named(NamedPrivateMode::ShowCursor)
        } else if mode == 1000 {
            PrivateMode::Named(NamedPrivateMode::ReportMouseClicks)
        } else if mode == 1002 {
            PrivateMode::Named(NamedPrivateMode::ReportCellMouseMotion)
        } else if mode == 1003 {
            PrivateMode::Named(NamedPrivateMode::ReportAllMouseMotion)
        } else if mode == 1004 {
            PrivateMode::Named(NamedPrivateMode::ReportFocusInOut)
        } else if mode == 1005 {
            PrivateMode::Named(NamedPrivateMode::Utf8Mouse)
        } else if mode == 1006 {
            PrivateMode::Named(NamedPrivateMode::SgrMouse)
        } else if mode == 1007 {
            PrivateMode::Named(NamedPrivateMode::AlternateScroll)
        } else if mode == 1042 {
            PrivateMode::Named(NamedPrivateMode::UrgencyHints)
        } else if mode == 1049 {
            PrivateMode::Named(NamedPrivateMode::SwapScreenAndSetRestoreCursor)
        } else if mode == 2004 {
            PrivateMode::Named(NamedPrivateMode::BracketedPaste)
        } else if mode == 2026 {
            PrivateMode::Named(NamedPrivateMode::SyncUpdate)
        } else {
            PrivateMode::Unknown(mode)
        }
}

impl PrivateMode {
    /// The private mode with a given number.
    pub fn new(mode: u16) -> (r: PrivateMode)
        ensures
            r == private_mode_of(mode),
    {
            if mode == 1 {
                PrivateMode::Named(NamedPrivateMode::CursorKeys)
            } else if mode == 3 {
                PrivateMode::Named(NamedPrivateMode::ColumnMode)
            } else if mode == 6 {
                PrivateMode::Named(NamedPrivateMode::Origin)
            } else if mode == 7 {
                PrivateMode::Named(NamedPrivateMode::LineWrap)
            } else if mode == 12 {
                PrivateMode::Named(NamedPrivateMode::BlinkingCursor)
            } else if mode == 25 {
                PrivateMode::Named(NamedPrivateMode::ShowCursor)
            } else if mode == 1000 {
                PrivateMode::Named(NamedPrivateMode::ReportMouseClicks)
            } else if mode == 1002 {
                PrivateMode::Named(NamedPrivateMode::ReportCellMouseMotion)
            } else if mode == 1003 {
                PrivateMode::Named(NamedPrivateMode::ReportAllMouseMotion)
            } else if mode == 1004 {
                PrivateMode::Named(NamedPrivateMode::ReportFocusInOut)
            } else if mode == 1005 {
                PrivateMode::Named(NamedPrivateMode::Utf8Mouse)
            } else if mode == 1006 {
                PrivateMode::Named(NamedPrivateMode::SgrMouse)
            } else if mode == 1007 {
                PrivateMode::Named(NamedPrivateMode::AlternateScroll)
            } else if mode == 1042 {
                PrivateMode::Named(NamedPrivateMode::UrgencyHints)
            } else if mode == 1049 {
                PrivateMode::Named(NamedPrivateMode::SwapScreenAndSetRestoreCursor)
            } else if mode == 2004 {
                PrivateMode::Named(NamedPrivateMode::BracketedPaste)
            } else if mode == 2026 {
                PrivateMode::Named(NamedPrivateMode::SyncUpdate)
            } else {
                PrivateMode::Unknown(mode)
            }
    }

    /// The number of the mode.
    pub fn raw(self) -> (r: u16)
        ensures
            r == match self {
                PrivateMode::Named(named) => named_private_mode_code(named),
                PrivateMode::Unknown(mode) => mode,
            },
    {
        match self {
            PrivateMode::Named(named) => match named {
                NamedPrivateMode::CursorKeys => 1,
                NamedPrivateMode::ColumnMode => 3,
                NamedPrivateMode::Origin => 6,
                NamedPrivateMode::LineWrap => 7,
                NamedPrivateMode::BlinkingCursor => 12,
                NamedPrivateMode::ShowCursor => 25,
                NamedPrivateMode::ReportMouseClicks => 1000,
                NamedPrivateMode::ReportCellMouseMotion => 1002,
                NamedPrivateMode::ReportAllMouseMotion => 1003,
                NamedPrivateMode::ReportFocusInOut => 1004,
                NamedPrivateMode::Utf8Mouse => 1005,
                NamedPrivateMode::SgrMouse => 1006,
                NamedPrivateMode::AlternateScroll => 1007,
                NamedPrivateMode::UrgencyHints => 1042,
                NamedPrivateMode::SwapScreenAndSetRestoreCursor => 1049,
                NamedPrivateMode::BracketedPaste => 2004,
                NamedPrivateMode::SyncUpdate => 2026,
            },
            PrivateMode::Unknown(mode) => mode,
        }
    }
}

/// Mode for clearing a line, relative to the cursor.
#[derive(Debug, Clone, Copy, Eq, PartialEq, Structural)]
pub enum LineClearMode {
    /// Clear right of cursor.
    Right,
    /// Clear left of cursor.
    Left,
    /// Clear entire line.
    All,
}

/// Mode for clearing the terminal, relative to the cursor.
#[derive(Debug, Clone, Copy, Eq, PartialEq, Structural)]
pub enum ClearMode {
    /// Clear below cursor.
    Below,
    /// Clear above cursor.
    Above,
    /// Clear entire terminal.
    All,
    /// Clear 'saved' lines (scrollback).
    Saved,
}

/// Mode for clearing tab stops.
#[derive(Debug, Clone, Copy, Eq, PartialEq, Structural)]
pub enum TabulationClearMode {
    /// Clear stop under cursor.
    Current,
    /// Clear all stops.
    All,
}

/// Standard colors, in the order of a colour list: the sixteen ANSI colours,
/// then, from index 256 on, the special ones.
#[derive(Debug, Copy, Clone, Eq, PartialEq, Structural, PartialOrd, Ord)]
pub enum NamedColor {
    /// Black.
    Black,
    /// Red.
    Red,
    /// Green.
    Green,
    /// Yellow.
    Yellow,
    /// Blue.
    Blue,
    /// Magenta.
    Magenta,
    /// Cyan.
    Cyan,
    /// White.
    White,
    /// Bright black.
    BrightBlack,
    /// Bright red.
    BrightRed,
    /// Bright green.
    BrightGreen,
    /// Bright yellow.
    BrightYellow,
    /// Bright blue.
    BrightBlue,
    /// Bright magenta.
    BrightMagenta,
    /// Bright cyan.
    BrightCyan,
    /// Bright white.
    BrightWhite,
    /// The foreground color.
    Foreground,
    /// The background color.
    Background,
    /// Color for the cursor itself.
    Cursor,
    /// Dim black.
    DimBlack,
    /// Dim red.
    DimRed,
    /// Dim green.
    DimGreen,
    /// Dim yellow.
    DimYellow,
    /// Dim blue.
    DimBlue,
    /// Dim magenta.
    DimMagenta,
    /// Dim cyan.
    DimCyan,
    /// Dim white.
    DimWhite,
    /// The bright foreground color.
    BrightForeground,
    /// Dim foreground.
    DimForeground,
}

/// The index of a named colour in a colour list.
pub open spec fn named_color_index(color: NamedColor) -> usize {
    match color {
        NamedColor::Black => 0,
        NamedColor::Red => 1,
        NamedColor::Green => 2,
        NamedColor::Yellow => 3,
        NamedColor::Blue => 4,
        NamedColor::Magenta => 5,
        NamedColor::Cyan => 6,
        NamedColor::White => 7,
        NamedColor::BrightBlack => 8,
        NamedColor::BrightRed => 9,
        NamedColor::BrightGreen => 10,
        NamedColor::BrightYellow => 11,
        NamedColor::BrightBlue => 12,
        NamedColor::BrightMagenta => 13,
        NamedColor::BrightCyan => 14,
        NamedColor::BrightWhite => 15,
        NamedColor::Foreground => 256,
        NamedColor::Background => 257,
        NamedColor::Cursor => 258,
        NamedColor::DimBlack => 259,
        NamedColor::DimRed => 260,
        NamedColor::DimGreen => 261,
        NamedColor::DimYellow => 262,
        NamedColor::DimBlue => 263,
        NamedColor::DimMagenta => 264,
        NamedColor::DimCyan => 265,
        NamedColor::DimWhite => 266,
        NamedColor::BrightForeground => 267,
        NamedColor::DimForeground => 268,
    }
}

/// The bright variant of a colour; a dim colour becomes its normal one.
pub open spec fn bright_of(color: NamedColor) -> NamedColor {
    match color {
        NamedColor::Foreground => NamedColor::BrightForeground,
        NamedColor::Black => NamedColor::BrightBlack,
        NamedColor::Red => NamedColor::BrightRed,
        NamedColor::Green => NamedColor::BrightGreen,
        NamedColor::Yellow => NamedColor::BrightYellow,
        NamedColor::Blue => NamedColor::BrightBlue,
        NamedColor::Magenta => NamedColor::BrightMagenta,
        NamedColor::Cyan => NamedColor::BrightCyan,
        NamedColor::White => NamedColor::BrightWhite,
        NamedColor::DimForeground => NamedColor::Foreground,
        NamedColor::DimBlack => NamedColor::Black,
        NamedColor::DimRed => NamedColor::Red,
        NamedColor::DimGreen => NamedColor::Green,
        NamedColor::DimYellow => NamedColor::Yellow,
        NamedColor::DimBlue => NamedColor::Blue,
        NamedColor::DimMagenta => NamedColor::Magenta,
        NamedColor::DimCyan => NamedColor::Cyan,
        NamedColor::DimWhite => NamedColor::White,
        val => val,
    }
}

/// The dim variant of a colour; a bright colour becomes its normal one.
pub open spec fn dim_of(color: NamedColor) -> NamedColor {
    match color {
        NamedColor::Black => NamedColor::DimBlack,
        NamedColor::Red => NamedColor::DimRed,
        NamedColor::Green => NamedColor::DimGreen,
        NamedColor::Yellow => NamedColor::DimYellow,
        NamedColor::Blue => NamedColor::DimBlue,
        NamedColor::Magenta => NamedColor::DimMagenta,
        NamedColor::Cyan => NamedColor::DimCyan,
        NamedColor::White => NamedColor::DimWhite,
        NamedColor::Foreground => NamedColor::DimForeground,
        NamedColor::BrightBlack => NamedColor::Black,
        NamedColor::BrightRed => NamedColor::Red,
        NamedColor::BrightGreen => NamedColor::Green,
        NamedColor::BrightYellow => NamedColor::Yellow,
        NamedColor::BrightBlue => NamedColor::Blue,
        NamedColor::BrightMagenta => NamedColor::Magenta,
        NamedColor::BrightCyan => NamedColor::Cyan,
        NamedColor::BrightWhite => NamedColor::White,
        NamedColor::BrightForeground => NamedColor::Foreground,
        val => val,
    }
}

impl NamedColor {
    /// The index of the colour in a colour list.
    pub fn index(self) -> (r: usize)
        ensures
            r == named_color_index(self),
    {
        match self {
            NamedColor::Black => 0,
            NamedColor::Red => 1,
            NamedColor::Green => 2,
            NamedColor::Yellow => 3,
            NamedColor::Blue => 4,
            NamedColor::Magenta => 5,
            NamedColor::Cyan => 6,
            NamedColor::White => 7,
            NamedColor::BrightBlack => 8,
            NamedColor::BrightRed => 9,
            NamedColor::BrightGreen => 10,
            NamedColor::BrightYellow => 11,
            NamedColor::BrightBlue => 12,
            NamedColor::BrightMagenta => 13,
            NamedColor::BrightCyan => 14,
            NamedColor::BrightWhite => 15,
            NamedColor::Foreground => 256,
            NamedColor::Background => 257,
            NamedColor::Cursor => 258,
            NamedColor::DimBlack => 259,
            NamedColor::DimRed => 260,
            NamedColor::DimGreen => 261,
            NamedColor::DimYellow => 262,
            NamedColor::DimBlue => 263,
            NamedColor::DimMagenta => 264,
            NamedColor::DimCyan => 265,
            NamedColor::DimWhite => 266,
            NamedColor::BrightForeground => 267,
            NamedColor::DimForeground => 268,
        }
    }

    /// The bright variant of the colour.
    pub fn to_bright(self) -> (r: NamedColor)
        ensures
            r == bright_of(self),
    {
        match self {
            NamedColor::Foreground => NamedColor::BrightForeground,
            NamedColor::Black => NamedColor::BrightBlack,
            NamedColor::Red => NamedColor::BrightRed,
            NamedColor::Green => NamedColor::BrightGreen,
            NamedColor::Yellow => NamedColor::BrightYellow,
            NamedColor::Blue => NamedColor::BrightBlue,
            NamedColor::Magenta => NamedColor::BrightMagenta,
            NamedColor::Cyan => NamedColor::BrightCyan,
            NamedColor::White => NamedColor::BrightWhite,
            NamedColor::DimForeground => NamedColor::Foreground,
            NamedColor::DimBlack => NamedColor::Black,
            NamedColor::DimRed => NamedColor::Red,
            NamedColor::DimGreen => NamedColor::Green,
            NamedColor::DimYellow => NamedColor::Yellow,
            NamedColor::DimBlue => NamedColor::Blue,
            NamedColor::DimMagenta => NamedColor::Magenta,
            NamedColor::DimCyan => NamedColor::Cyan,
            NamedColor::DimWhite => NamedColor::White,
            val => val,
        }
    }

    /// The dim variant of the colour.
    pub fn to_dim(self) -> (r: NamedColor)
        ensures
            r == dim_of(self),
    {
        match self {
            NamedColor::Black => NamedColor::DimBlack,
            NamedColor::Red => NamedColor::DimRed,
            NamedColor::Green => NamedColor::DimGreen,
            NamedColor::Yellow => NamedColor::DimYellow,
            NamedColor::Blue => NamedColor::DimBlue,
            NamedColor::Magenta => NamedColor::DimMagenta,
            NamedColor::Cyan => NamedColor::DimCyan,
            NamedColor::White => NamedColor::DimWhite,
            NamedColor::Foreground => NamedColor::DimForeground,
            NamedColor::BrightBlack => NamedColor::Black,
            NamedColor::BrightRed => NamedColor::Red,
            NamedColor::BrightGreen => NamedColor::Green,
            NamedColor::BrightYellow => NamedColor::Yellow,
            NamedColor::BrightBlue => NamedColor::Blue,
            NamedColor::BrightMagenta => NamedColor::Magenta,
            NamedColor::BrightCyan => NamedColor::Cyan,
            NamedColor::BrightWhite => NamedColor::White,
            NamedColor::BrightForeground => NamedColor::Foreground,
            val => val,
        }
    }
}

/// A colour: named, true colour, or an index in the 256-colour palette.
#[derive(Debug, Clone, Copy, PartialEq, Eq, Structural)]
pub enum Color {
    Named(NamedColor),
    Spec(Rgb),
    Indexed(u8),
}

/// Terminal character attributes.
#[derive(Debug, Eq, PartialEq, Structural)]
pub enum Attr {
    /// Clear all special abilities.
    Reset,
    /// Bold text.
    Bold,
    /// Dim or secondary color.
    Dim,
    /// Italic text.
    Italic,
    /// Underline text.
    Underline,
    /// Underlined twice.
    DoubleUnderline,
    /// Undercurled text.
    Undercurl,
    /// Dotted underlined text.
    DottedUnderline,
    /// Dashed underlined text.
    DashedUnderline,
    /// Blink cursor slowly.
    BlinkSlow,
    /// Blink cursor fast.
    BlinkFast,
    /// Invert colors.
    Reverse,
    /// Do not display characters.
    Hidden,
    /// Strikeout text.
    Strike,
    /// Cancel bold.
    CancelBold,
    /// Cancel bold and dim.
    CancelBoldDim,
    /// Cancel italic.
    CancelItalic,
    /// Cancel all underlines.
    CancelUnderline,
    /// Cancel blink.
    CancelBlink,
    /// Cancel inversion.
    CancelReverse,
    /// Cancel text hiding.
    CancelHidden,
    /// Cancel strikeout.
    CancelStrike,
    /// Set indexed foreground color.
    Foreground(Color),
    /// Set indexed background color.
    Background(Color),
    /// Underline color.
    UnderlineColor(Option<Color>),
}

/// The colour of an SGR colour specifier: `2;r;g;b` or `5;index`.
pub open spec fn sgr_color(p: Seq<u16>) -> Option<Color> {
    if p.len() >= 1 && p[0] == 2 {
        if p.len() >= 4 && p[1] <= 255 && p[2] <= 255 && p[3] <= 255 {
            Some(Color::Spec(Rgb { r: p[1] as u8, g: p[2] as u8, b: p[3] as u8 }))
        } else {
            None
        }
    } else if p.len() >= 1 && p[0] == 5 {
        if p.len() >= 2 && p[1] <= 255 {
            Some(Color::Indexed(p[1] as u8))
        } else {
            None
        }
    } else {
        None
    }
}

/// Parses an SGR colour specifier at the start of `params`: `2;r;g;b` for
/// a true colour, `5;index` for a palette index.
pub fn parse_sgr_color(params: &[u16]) -> (r: Option<Color>)
    ensures
        r == sgr_color(params@),
{
    if params.len() >= 1 && params[0] == 2 {
        if params.len() >= 4 && params[1] <= 255 && params[2] <= 255 && params[3] <= 255 {
            Some(Color::Spec(Rgb { r: params[1] as u8, g: params[2] as u8, b: params[3] as u8 }))
        } else {
            None
        }
    } else if params.len() >= 1 && params[0] == 5 {
        if params.len() >= 2 && params[1] <= 255 {
            Some(Color::Indexed(params[1] as u8))
        } else {
            None
        }
    } else {
        None
    }
}

/// The colour of a colon-separated specifier: with more than four values
/// the second one (a colour space) is skipped.
pub open spec fn colon_rgb(p: Seq<u16>) -> Option<Color>
    recommends
        p.len() >= 1,
{
    let start: int = if p.len() > 4 {
        2
    } else {
        1
    };
    sgr_color(seq![p[0]] + p.subrange(start, p.len() as int))
}

/// Parses a colon-separated colour specifier such as `2::r:g:b`.
pub fn handle_colon_rgb(params: &[u16]) -> (r: Option<Color>)
    requires
        params@.len() >= 1,
    ensures
        r == colon_rgb(params@),
{
    let start: usize = if params.len() > 4 {
        2
    } else {
        1
    };
    let mut v: Vec<u16> = Vec::new();
    v.push(params[0]);
    let mut i = start;
    while i < params.len()
        invariant
            start <= i <= params@.len(),
            v@ == seq![params@[0]] + params@.subrange(start as int, i as int),
        decreases params@.len() - i,
    {
        v.push(params[i]);
        i = i + 1;
        assert(v@ =~= seq![params@[0]] + params@.subrange(start as int, i as int));
    }
    parse_sgr_color(v.as_slice())
}

/// Identifiers which can be assigned to a graphic character set.
#[derive(Clone, Copy, Debug, Default, Eq, PartialEq, Structural)]
pub enum CharsetIndex {
    /// Default set, is designated as ASCII at startup.
    #[default]
    G0,
    G1,
    G2,
    G3,
}

/// Standard or common character sets which can be designated as G0-G3.
#[derive(Clone, Copy, Debug, Default, Eq, PartialEq, Structural)]
pub enum StandardCharset {
    #[default]
    Ascii,
    SpecialCharacterAndLineDrawing,
}

/// The DEC special graphics character that stands for `c`.
pub open spec fn line_drawing(c: char) -> char {
        if c == '_' {
            ' '
        } else if c == '`' {
            '\u{25c6}'
        } else if c == 'a' {
            '\u{2592}'
        } else if c == 'b' {
            '\u{2409}'
        } else if c == 'c' {
            '\u{240c}'
        } else if c == 'd' {
            '\u{240d}'
        } else if c == 'e' {
            '\u{240a}'
        } else if c == 'f' {
            '\u{b0}'
        } else if c == 'g' {
            '\u{b1}'
        } else if c == 'h' {
            '\u{2424}'
        } else if c == 'i' {
            '\u{240b}'
        } else if c == 'j' {
            '\u{2518}'
        } else if c == 'k' {
            '\u{2510}'
        } else if c == 'l' {
            '\u{250c}'
        } else if c == 'm' {
            '\u{2514}'
        } else if c == 'n' {
            '\u{253c}'
        } else if c == 'o' {
            '\u{23ba}'
        } else if c == 'p' {
            '\u{23bb}'
        } else if c == 'q' {
            '\u{2500}'
        } else if c == 'r' {
            '\u{23bc}'
        } else if c == 's' {
            '\u{23bd}'
        } else if c == 't' {
            '\u{251c}'
        } else if c == 'u' {
            '\u{2524}'
        } else if c == 'v' {
            '\u{2534}'
        } else if c == 'w' {
            '\u{252c}'
        } else if c == 'x' {
            '\u{2502}'
        } else if c == 'y' {
            '\u{2264}'
        } else if c == 'z' {
            '\u{2265}'
        } else if c == '{' {
            '\u{3c0}'
        } else if c == '|' {
            '\u{2260}'
        } else if c == '}' {
            '\u{a3}'
        } else if c == '~' {
            '\u{b7}'
        } else {
            c
        }
}

/// `c` in a character set.
pub open spec fn charset_map(charset: StandardCharset, c: char) -> char {
    match charset {
        StandardCharset::Ascii => c,
        StandardCharset::SpecialCharacterAndLineDrawing => line_drawing(c),
    }
}

impl StandardCharset {
    /// Maps a character to the character set.
    pub fn map(self, c: char) -> (r: char)
        ensures
            r == charset_map(self, c),
    {
        match self {
            StandardCharset::Ascii => c,
            StandardCharset::SpecialCharacterAndLineDrawing => {
                    if c == '_' {
                    ' '
                } else if c == '`' {
                    '\u{25c6}'
                } else if c == 'a' {
                    '\u{2592}'
                } else if c == 'b' {
                    '\u{2409}'
                } else if c == 'c' {
                    '\u{240c}'
                } else if c == 'd' {
                    '\u{240d}'
                } else if c == 'e' {
                    '\u{240a}'
                } else if c == 'f' {
                    '\u{b0}'
                } else if c == 'g' {
                    '\u{b1}'
                } else if c == 'h' {
                    '\u{2424}'
                } else if c == 'i' {
                    '\u{240b}'
                } else if c == 'j' {
                    '\u{2518}'
                } else if c == 'k' {
                    '\u{2510}'
                } else if c == 'l' {
                    '\u{250c}'
                } else if c == 'm' {
                    '\u{2514}'
                } else if c == 'n' {
                    '\u{253c}'
                } else if c == 'o' {
                    '\u{23ba}'
                } else if c == 'p' {
                    '\u{23bb}'
                } else if c == 'q' {
                    '\u{2500}'
                } else if c == 'r' {
                    '\u{23bc}'
                } else if c == 's' {
                    '\u{23bd}'
                } else if c == 't' {
                    '\u{251c}'
                } else if c == 'u' {
                    '\u{2524}'
                } else if c == 'v' {
                    '\u{2534}'
                } else if c == 'w' {
                    '\u{252c}'
                } else if c == 'x' {
                    '\u{2502}'
                } else if c == 'y' {
                    '\u{2264}'
                } else if c == 'z' {
                    '\u{2265}'
                } else if c == '{' {
                    '\u{3c0}'
                } else if c == '|' {
                    '\u{2260}'
                } else if c == '}' {
                    '\u{a3}'
                } else if c == '~' {
                    '\u{b7}'
                } else {
                    c
                }
            },
        }
    }
}

/// SCP control's first parameter which determines character path.
#[derive(Debug, Clone, Copy, PartialEq, Eq, Structural, Hash)]
pub enum ScpCharPath {
    /// SCP's first parameter value of 0. Behavior is implementation defined.
    Default,
    /// SCP's first parameter value of 1: left to right.
    LTR,
    /// SCP's first parameter value of 2: right to left.
    RTL,
}

/// SCP control's second parameter which determines update mode/direction
/// between components.
#[derive(Debug, Clone, Copy, PartialEq, Eq, Structural, Hash)]
pub enum ScpUpdateMode {
    /// SCP's second parameter value of 0 (the default).
    ImplementationDependant,
    /// SCP's second parameter value of 1: data to presentation.
    DataToPresentation,
    /// SCP's second parameter value of 2: presentation to data.
    PresentationToData,
}

} // verus!
