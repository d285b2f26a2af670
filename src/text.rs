//! Rendering numbers and label lists as text.
use vstd::prelude::*;

use crate::units::SCALE;

verus! {

/// The decimal digit `d` as text.
pub open spec fn digit_text(d: int) -> Seq<char> {
    if d == 0 {
        "0"@
    } else if d == 1 {
        "1"@
    } else if d == 2 {
        "2"@
    } else if d == 3 {
        "3"@
    } else if d == 4 {
        "4"@
    } else if d == 5 {
        "5"@
    } else if d == 6 {
        "6"@
    } else if d == 7 {
        "7"@
    } else if d == 8 {
        "8"@
    } else {
        "9"@
    }
}

/// `n` in decimal, without leading zeros.
pub open spec fn decimal(n: nat) -> Seq<char>
    decreases n,
{
    if n < 10 {
        digit_text(n as int)
    } else {
        decimal(n / 10) + digit_text((n % 10) as int)
    }
}

/// The last `width` decimal digits of `n`, zero-padded.
pub open spec fn padded(n: nat, width: nat) -> Seq<char>
    decreases width,
{
    if width == 0 {
        Seq::empty()
    } else {
        padded(n / 10, (width - 1) as nat) + digit_text((n % 10) as int)
    }
}

/// The last `width` decimal digits of `n`, zero-padded, without trailing zeros.
pub open spec fn fraction_digits(n: nat, width: nat) -> Seq<char>
    decreases width,
{
    if width > 1 && n % 10 == 0 {
        fraction_digits(n / 10, (width - 1) as nat)
    } else {
        padded(n, width)
    }
}

/// A fixed-point value in the shortest decimal form: `4.5`, `4.25`, `5`.
pub open spec fn fixed_text(v: nat) -> Seq<char> {
    let whole = v / SCALE as nat;
    let frac = v % SCALE as nat;
    if frac == 0 {
        decimal(whole)
    } else {
        decimal(whole) + "."@ + fraction_digits(frac, 6)
    }
}

/// The labels joined by `sep`.
pub open spec fn joined(labels: Seq<String>, sep: Seq<char>) -> Seq<char>
    decreases labels.len(),
{
    if labels.len() == 0 {
        Seq::empty()
    } else if labels.len() == 1 {
        labels[0]@
    } else {
        joined(labels.drop_last(), sep) + sep + labels.last()@
    }
}

fn digit(d: u64) -> (r: &'static str)
    requires
        d < 10,
    ensures
        r@ == digit_text(d as int),
{
    if d == 0 {
        "0"
    } else if d == 1 {
        "1"
    } else if d == 2 {
        "2"
    } else if d == 3 {
        "3"
    } else if d == 4 {
        "4"
    } else if d == 5 {
        "5"
    } else if d == 6 {
        "6"
    } else if d == 7 {
        "7"
    } else if d == 8 {
        "8"
    } else {
        "9"
    }
}

/// Append `n` in decimal to `s`.
pub fn push_decimal(s: &mut String, n: u64)
    ensures
        final(s)@ == old(s)@ + decimal(n as nat),
    decreases n,
{
    if n >= 10 {
        push_decimal(s, n / 10);
    }
    s.append(digit(n % 10));
    proof {
        if n >= 10 {
            assert(decimal(n as nat) == decimal((n / 10) as nat) + digit_text((n % 10) as int));
        }
    }
}

/// Append the last `width` decimal digits of `n`, zero-padded, to `s`.
fn push_padded(s: &mut String, n: u64, width: u64)
    ensures
        final(s)@ == old(s)@ + padded(n as nat, width as nat),
    decreases width,
{
    if width > 0 {
        push_padded(s, n / 10, width - 1);
        s.append(digit(n % 10));
    }
}

/// Append a fixed-point value to `s` in its shortest decimal form.
pub fn push_fixed(s: &mut String, v: u32)
    ensures
        final(s)@ == old(s)@ + fixed_text(v as nat),
{
    push_decimal(s, (v / SCALE) as u64);
    let frac = v % SCALE;
    if frac != 0 {
        s.append(".");
        let mut n = frac as u64;
        let mut width: u64 = 6;
        while width > 1 && n % 10 == 0
            invariant
                1 <= width <= 6,
                fraction_digits(n as nat, width as nat) == fraction_digits(frac as nat, 6),
            decreases width,
        {
            n = n / 10;
            width = width - 1;
        }
        push_padded(s, n, width);
    }
    proof {
        assert(final(s)@ =~= old(s)@ + fixed_text(v as nat)) by {
            if frac == 0 {
            }
        }
    }
}

/// Append the labels, joined by `sep`, to `s`.
pub fn push_joined(s: &mut String, labels: &[String], sep: &str)
    ensures
        final(s)@ == old(s)@ + joined(labels@, sep@),
{
    let ghost start = s@;
    let n = labels.len();
    let mut i: usize = 0;
    assert(labels@.take(0) =~= Seq::<String>::empty());
    assert(start + Seq::<char>::empty() =~= start);
    while i < n
        invariant
            n == labels@.len(),
            i <= n,
            s@ == start + joined(labels@.take(i as int), sep@),
        decreases n - i,
    {
        let ghost t = labels@.take(i + 1);
        assert(t.drop_last() =~= labels@.take(i as int));
        assert(t.last() == labels@[i as int]);
        if i > 0 {
            s.append(sep);
        }
        s.append(labels[i].as_str());
        proof {
            if i == 0 {
                assert(t.len() == 1 && t[0] == labels@[0]);
                assert(joined(labels@.take(0), sep@) =~= Seq::<char>::empty());
                assert(s@ =~= start + joined(t, sep@));
            } else {
                assert(s@ =~= start + joined(t, sep@));
            }
        }
        i = i + 1;
    }
    assert(labels@.take(n as int) =~= labels@);
}

/// Whether `c` has the Unicode `White_Space` property.
pub open spec fn is_space(c: char) -> bool {
    ('\u{9}' <= c && c <= '\u{d}') || c == ' ' || c == '\u{85}' || c == '\u{a0}' || c == '\u{1680}'
        || ('\u{2000}' <= c && c <= '\u{200a}') || c == '\u{2028}' || c == '\u{2029}' || c
        == '\u{202f}' || c == '\u{205f}' || c == '\u{3000}'
}

/// Whether `s` is empty or holds only white space, so that trimming it
/// leaves nothing.
pub open spec fn is_blank(s: Seq<char>) -> bool {
    forall|i: int| 0 <= i < s.len() ==> is_space(#[trigger] s[i])
}

fn space(c: char) -> (r: bool)
    ensures
        r == is_space(c),
{
    ('\u{9}' <= c && c <= '\u{d}') || c == ' ' || c == '\u{85}' || c == '\u{a0}' || c == '\u{1680}'
        || ('\u{2000}' <= c && c <= '\u{200a}') || c == '\u{2028}' || c == '\u{2029}' || c
        == '\u{202f}' || c == '\u{205f}' || c == '\u{3000}'
}

/// Whether `s` is empty or holds only white space.
pub fn blank(s: &str) -> (r: bool)
    ensures
        r == is_blank(s@),
{
    let n = s.unicode_len();
    let mut i: usize = 0;
    while i < n
        invariant
            n == s@.len(),
            i <= n,
            forall|j: int| 0 <= j < i ==> is_space(#[trigger] s@[j]),
        decreases n - i,
    {
        if !space(s.get_char(i)) {
            return false;
        }
        i = i + 1;
    }
    true
}

/// Append a fixed-point fraction in `[0, SCALE]` as a percentage with one
/// decimal, rounded half up, to `s`.
pub fn push_percent_tenths(s: &mut String, v: u32)
    ensures
        final(s)@ == old(s)@ + percent_tenths_text(v as nat),
{
    let tenths = (v as u64 + 500) / 1000;
    push_decimal(s, tenths / 10);
    s.append(".");
    s.append(digit(tenths % 10));
}

/// A fixed-point value as a percentage with one decimal, rounded half up:
/// `0.8754` is `87.5`.
pub open spec fn percent_tenths_text(v: nat) -> Seq<char> {
    let tenths = (v + 500) / 1000;
    decimal(tenths / 10) + "."@ + digit_text((tenths % 10) as int)
}

} // verus!
