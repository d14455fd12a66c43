//! Text forms of numbers, as the shell's commands print them with Rust's
//! formatting: `{}` (decimal), `{:x}` (lowercase hexadecimal), a `0x`
//! prefix (`#`) and zero padding to a width (`0N`).

use vstd::prelude::*;

verus! {

/// The decimal digits of `n`, most significant first, without leading zeros.
pub open spec fn decimal(n: nat) -> Seq<u8>
    decreases n,
{
    if n < 10 {
        seq![(48 + n) as u8]
    } else {
        decimal(n / 10).push((48 + n % 10) as u8)
    }
}

/// The lowercase hexadecimal digit for `d` (below 16).
pub open spec fn hex_digit(d: nat) -> u8 {
    if d < 10 {
        (48 + d) as u8
    } else {
        (87 + d) as u8
    }
}

/// The lowercase hexadecimal digits of `n`, most significant first, without
/// leading zeros.
pub open spec fn hex(n: nat) -> Seq<u8>
    decreases n,
{
    if n < 16 {
        seq![hex_digit(n)]
    } else {
        hex(n / 16).push(hex_digit(n % 16))
    }
}

/// `s` with `'0'` bytes in front up to `width` bytes (`s` itself when it is
/// already that long).
pub open spec fn zero_padded(s: Seq<u8>, width: nat) -> Seq<u8> {
    if s.len() >= width {
        s
    } else {
        Seq::new((width - s.len()) as nat, |i: int| 48u8) + s
    }
}

/// The `0x` prefix of the alternate hexadecimal form.
pub open spec fn hex_prefix() -> Seq<u8> {
    seq![48u8, 120u8]
}

/// `{:#x}`: `0x` and the hexadecimal digits.
pub open spec fn hex_alt(n: nat) -> Seq<u8> {
    hex_prefix() + hex(n)
}

/// `{:#012x}`: `0x` and the hexadecimal digits zero-padded to 10 (12 bytes
/// in all at least).
pub open spec fn hex_alt_12(n: nat) -> Seq<u8> {
    hex_prefix() + zero_padded(hex(n), 10)
}

/// `n` in decimal (`{}`).
pub fn format_decimal(n: u64) -> (r: Vec<u8>)
    ensures
        r@ == decimal(n as nat),
    decreases n,
{
    if n < 10 {
        let mut v: Vec<u8> = Vec::new();
        v.push((48 + n) as u8);
        assert(v@ =~= decimal(n as nat));
        v
    } else {
        let mut v = format_decimal(n / 10);
        v.push((48 + n % 10) as u8);
        v
    }
}

/// `n` in lowercase hexadecimal (`{:x}`).
pub fn format_hex(n: u64) -> (r: Vec<u8>)
    ensures
        r@ == hex(n as nat),
    decreases n,
{
    let d = n % 16;
    let digit: u8 = if d < 10 {
        (48 + d) as u8
    } else {
        (87 + d) as u8
    };
    if n < 16 {
        let mut v: Vec<u8> = Vec::new();
        v.push(digit);
        assert(v@ =~= hex(n as nat));
        v
    } else {
        let mut v = format_hex(n / 16);
        v.push(digit);
        v
    }
}

/// `s` with `'0'` bytes in front up to `width` bytes.
pub fn zero_pad(s: Vec<u8>, width: usize) -> (r: Vec<u8>)
    ensures
        r@ == zero_padded(s@, width as nat),
{
    if s.len() >= width {
        return s;
    }
    let mut r: Vec<u8> = Vec::new();
    let pad = width - s.len();
    let mut i: usize = 0;
    while i < pad
        invariant
            i <= pad,
            r@ == Seq::new(i as nat, |k: int| 48u8),
        decreases pad - i,
    {
        r.push(48);
        i = i + 1;
        assert(r@ =~= Seq::new(i as nat, |k: int| 48u8));
    }
    let mut j: usize = 0;
    while j < s.len()
        invariant
            j <= s.len(),
            r@ == Seq::new(pad as nat, |k: int| 48u8) + s@.take(j as int),
        decreases s.len() - j,
    {
        r.push(s[j]);
        j = j + 1;
        assert(r@ =~= Seq::new(pad as nat, |k: int| 48u8) + s@.take(j as int));
    }
    assert(s@.take(s.len() as int) =~= s@);
    r
}

/// `a` followed by `b`.
pub fn concat(a: Vec<u8>, b: &Vec<u8>) -> (r: Vec<u8>)
    ensures
        r@ == a@ + b@,
{
    let mut r = a;
    let ghost a0 = r@;
    let mut j: usize = 0;
    while j < b.len()
        invariant
            j <= b.len(),
            r@ == a0 + b@.take(j as int),
        decreases b.len() - j,
    {
        r.push(b[j]);
        j = j + 1;
        assert(r@ =~= a0 + b@.take(j as int));
    }
    assert(b@.take(b.len() as int) =~= b@);
    r
}

/// The `0x` prefix.
fn hex_prefix_exec() -> (r: Vec<u8>)
    ensures
        r@ == hex_prefix(),
{
    let mut v: Vec<u8> = Vec::new();
    v.push(48);
    v.push(120);
    assert(v@ =~= hex_prefix());
    v
}

/// `{:#x}`.
pub fn format_hex_alt(n: u64) -> (r: Vec<u8>)
    ensures
        r@ == hex_alt(n as nat),
{
    concat(hex_prefix_exec(), &format_hex(n))
}

/// `{:#012x}`.
pub fn format_hex_alt_12(n: u64) -> (r: Vec<u8>)
    ensures
        r@ == hex_alt_12(n as nat),
{
    concat(hex_prefix_exec(), &zero_pad(format_hex(n), 10))
}


/// `{:#0Wx}` with `W` = `digits + 2`: `0x` and the hexadecimal digits
/// zero-padded to `digits` (`{:#04x}` pads to 2, `{:#018x}` to 16).
pub open spec fn hex_alt_padded(n: nat, digits: nat) -> Seq<u8> {
    hex_prefix() + zero_padded(hex(n), digits)
}

/// `{:#0Wx}` with `W` = `digits + 2`.
pub fn format_hex_alt_padded(n: u64, digits: usize) -> (r: Vec<u8>)
    ensures
        r@ == hex_alt_padded(n as nat, digits as nat),
{
    concat(hex_prefix_exec(), &zero_pad(format_hex(n), digits))
}

} // verus!
