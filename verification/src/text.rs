//! Text shown on screen: the glyph set of the pixel font and the digits of
//! numbers.
use vstd::prelude::*;

verus! {

/// Characters of the font, in the order of its glyphs: the digits first,
/// then the capitals the screens use, then `^` and `v` (arrows).
pub open spec fn glyph_chars() -> Seq<u8> {
    seq![
        48u8, 49, 50, 51, 52, 53, 54, 55, 56, 57,
        65, 66, 67, 68, 69, 71, 72, 73, 76, 77, 78, 79, 80, 82, 83, 84, 85, 86, 88,
        94, 118,
    ]
}

/// ASCII blank.
pub const SPACE: u8 = 32;

/// ASCII `0`; the digit `d` is `DIGIT_ZERO + d`.
pub const DIGIT_ZERO: u8 = 48;

/// Number of glyphs in the font.
pub const GLYPH_COUNT: usize = 31;

/// The glyph of character `c`, if the font has one.
pub fn glyph_index(c: u8) -> (r: Option<usize>)
    ensures
        match r {
            Some(i) => i < GLYPH_COUNT && glyph_chars()[i as int] == c && forall|j: int|
                0 <= j < i ==> glyph_chars()[j] != c,
            None => !glyph_chars().contains(c),
        },
{
    // ASCII codes of "0123456789ABCDEGHILMNOPRSTUVX^v".
    let chars: [u8; 31] = [
        48, 49, 50, 51, 52, 53, 54, 55, 56, 57,
        65, 66, 67, 68, 69, 71, 72, 73, 76, 77, 78, 79, 80, 82, 83, 84, 85, 86, 88,
        94, 118,
    ];
    assert(chars@ =~= glyph_chars());
    let mut i: usize = 0;
    while i < 31
        invariant
            0 <= i <= 31,
            chars@ == glyph_chars(),
            forall|j: int| 0 <= j < i ==> glyph_chars()[j] != c,
        decreases 31 - i,
    {
        if chars[i] == c {
            return Some(i);
        }
        i = i + 1;
    }
    assert(!glyph_chars().contains(c));
    None
}

/// `10^n`.
pub open spec fn pow10(n: nat) -> nat
    decreases n,
{
    if n == 0 {
        1
    } else {
        10 * pow10((n - 1) as nat)
    }
}

proof fn lemma_pow10_monotone(m: nat, n: nat)
    requires
        m <= n,
    ensures
        1 <= pow10(m) <= pow10(n),
    decreases n,
{
    if n > m {
        lemma_pow10_monotone(m, (n - 1) as nat);
    } else if n > 0 {
        lemma_pow10_monotone((n - 1) as nat, (n - 1) as nat);
    }
}

proof fn lemma_pow10_bounds(n: nat)
    ensures
        pow10(n) >= 1,
        n <= 9 ==> pow10(n) <= 1_000_000_000,
{
    lemma_pow10_monotone(n, n);
    if n <= 9 {
        lemma_pow10_monotone(n, 9);
        assert(pow10(9) == 1_000_000_000) by {
            reveal_with_fuel(pow10, 10);
        }
    }
}

/// The value a field of `width` digits shows: at most `width` nines.
pub open spec fn shown_value(value: u32, width: nat) -> nat {
    if value < pow10(width) {
        value as nat
    } else {
        (pow10(width) - 1) as nat
    }
}

/// The character at place `i` (counted from the right) of a right-aligned
/// number: the digit, or a blank for a leading zero (the ones place always
/// shows its digit).
pub open spec fn place_char(v: nat, i: nat) -> u8 {
    if i == 0 || v >= pow10(i) {
        (48 + (v / pow10(i)) % 10) as u8
    } else {
        32u8
    }
}

/// The `width` characters of `value`, right-aligned with leading blanks;
/// a value with more digits shows as all nines.
pub open spec fn number_chars(value: u32, width: nat) -> Seq<u8> {
    Seq::new(width, |p: int| place_char(shown_value(value, width), (width - 1 - p) as nat))
}

/// The text of `value` in a field of `width` characters: right-aligned,
/// leading zeros blank, and saturated to all nines when it does not fit.
pub fn number_text(value: u32, width: u32) -> (r: Vec<u8>)
    requires
        width <= 9,
    ensures
        r@ == number_chars(value, width as nat),
{
    proof {
        lemma_pow10_bounds(width as nat);
    }
    let mut max: u32 = 1;
    let mut k: u32 = 0;
    while k < width
        invariant
            k <= width <= 9,
            max == pow10(k as nat),
        decreases width - k,
    {
        proof {
            lemma_pow10_bounds(k as nat + 1);
        }
        max = max * 10;
        k = k + 1;
    }
    let max = max - 1;
    let v: u32 = if value < max {
        value
    } else {
        max
    };
    let ghost sv = shown_value(value, width as nat);
    assert(v == sv);
    let mut out: Vec<u8> = Vec::new();
    let mut q: u32 = 0;
    while q < width
        invariant
            q <= width,
            out.len() == q,
            forall|j: int| 0 <= j < q ==> #[trigger] out@[j] == 32u8,
        decreases width - q,
    {
        out.push(SPACE);
        q = q + 1;
    }
    let mut rest: u32 = v;
    let mut i: u32 = 0;
    while i < width
        invariant
            i <= width <= 9,
            v == sv,
            out.len() == width,
            forall|q: int| 0 <= q < width - i ==> #[trigger] out@[q] == 32u8,
            forall|q: int| width - i <= q < width ==> #[trigger] out@[q] == place_char(sv, (width - 1 - q) as nat),
            rest == sv / pow10(i as nat),
        decreases width - i,
    {
        let ghost pw = pow10(i as nat);
        proof {
            lemma_pow10_bounds(i as nat);
            assert((rest > 0) == (sv >= pw)) by (nonlinear_arith)
                requires
                    rest == sv / pw,
                    pw >= 1,
            ;
        }
        if i == 0 || rest > 0 {
            let d = (rest % 10) as u8;
            out.set((width - 1 - i) as usize, DIGIT_ZERO + d);
        }
        proof {
            vstd::arithmetic::div_mod::lemma_div_denominator(sv as int, pw as int, 10);
            assert(pow10(i as nat + 1) == pw * 10);
        }
        rest = rest / 10;
        i = i + 1;
    }
    assert(out@ =~= number_chars(value, width as nat));
    out
}

/// The two characters of a start level (1 to 15), left-aligned: a one-digit
/// level is followed by a blank.
pub fn level_text(level: u32) -> (r: [u8; 2])
    ensures
        r@ == (if level >= 10 {
            seq![49u8, (48 + level % 10) as u8]
        } else {
            seq![(48 + level % 10) as u8, 32u8]
        }),
{
    let r: [u8; 2] = if level >= 10 {
        [DIGIT_ZERO + 1, DIGIT_ZERO + (level % 10) as u8]
    } else {
        [DIGIT_ZERO + (level % 10) as u8, SPACE]
    };
    assert(r@ =~= (if level >= 10 {
        seq![49u8, (48 + level % 10) as u8]
    } else {
        seq![(48 + level % 10) as u8, 32u8]
    }));
    r
}

} // verus!
