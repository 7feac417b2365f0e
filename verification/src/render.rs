//! Text renderings of numbers: decimal, fixed-width lowercase hex, and the
//! human-readable byte format used by the duplicate report and the export.

use vstd::prelude::*;
use vstd::string::*;

verus! {

/// The character for one digit value, `0` through `15`.
pub open spec fn digit_char(d: int) -> char {
    if d == 0 {
        '0'
    } else if d == 1 {
        '1'
    } else if d == 2 {
        '2'
    } else if d == 3 {
        '3'
    } else if d == 4 {
        '4'
    } else if d == 5 {
        '5'
    } else if d == 6 {
        '6'
    } else if d == 7 {
        '7'
    } else if d == 8 {
        '8'
    } else if d == 9 {
        '9'
    } else if d == 10 {
        'a'
    } else if d == 11 {
        'b'
    } else if d == 12 {
        'c'
    } else if d == 13 {
        'd'
    } else if d == 14 {
        'e'
    } else {
        'f'
    }
}

/// The decimal digits of a non-negative `n`, most significant first;
/// zero is rendered as a single `0`.
pub open spec fn decimal_digits(n: int) -> Seq<char>
    recommends
        n >= 0,
    decreases n,
{
    if n < 10 {
        seq![digit_char(n)]
    } else {
        decimal_digits(n / 10).push(digit_char(n % 10))
    }
}

/// The decimal rendering of `n`, with a leading minus sign when negative.
pub open spec fn signed_decimal(n: int) -> Seq<char> {
    if n < 0 {
        "-"@ + decimal_digits(-n)
    } else {
        decimal_digits(n)
    }
}

/// The hexadecimal digits of `n` written with exactly `width` digits,
/// most significant first (leading zeroes kept).
pub open spec fn hex_digits(n: int, width: nat) -> Seq<char>
    recommends
        n >= 0,
    decreases width,
{
    if width == 0 {
        Seq::empty()
    } else {
        hex_digits(n / 16, (width - 1) as nat).push(digit_char(n % 16))
    }
}

/// `n` scaled by `unit` into hundredths, rounded half upward.
pub open spec fn rounded_hundredths(n: int, unit: int) -> int
    recommends
        unit > 0,
{
    (n * 100 + unit / 2) / unit
}

/// The hundredths value `h` written as a two-decimal number, `D.CC`.
pub open spec fn two_decimals(h: int) -> Seq<char>
    recommends
        h >= 0,
{
    decimal_digits(h / 100) + "."@ + seq![digit_char((h / 10) % 10), digit_char(h % 10)]
}

/// The human-readable size of a byte count: decimal units (not binary),
/// two rounded decimals from one thousand bytes upward, plain bytes below.
pub open spec fn human_size(bytes: int) -> Seq<char> {
    if bytes >= 1000000000 {
        two_decimals(rounded_hundredths(bytes, 1000000000)) + " GB"@
    } else if bytes >= 1000000 {
        two_decimals(rounded_hundredths(bytes, 1000000)) + " MB"@
    } else if bytes >= 1000 {
        two_decimals(rounded_hundredths(bytes, 1000)) + " KB"@
    } else {
        signed_decimal(bytes) + " bytes"@
    }
}

/// One digit value as a one-character string.
fn digit_str(d: u64) -> (r: &'static str)
    requires
        d < 16,
    ensures
        r@ == seq![digit_char(d as int)],
{
    let r: &'static str = if d == 0 {
        "0"
    } else if d == 1 {
        "1"
    } else if d == 2 {
        "2"
    } else if d == 3 {
        "3"
    } else if d == 4 {
        "4"
    } else if d == 5 {
        "5"
    } else if d == 6 {
        "6"
    } else if d == 7 {
        "7"
    } else if d == 8 {
        "8"
    } else if d == 9 {
        "9"
    } else if d == 10 {
        "a"
    } else if d == 11 {
        "b"
    } else if d == 12 {
        "c"
    } else if d == 13 {
        "d"
    } else if d == 14 {
        "e"
    } else {
        "f"
    };
    proof {
        reveal_strlit("0");
        reveal_strlit("1");
        reveal_strlit("2");
        reveal_strlit("3");
        reveal_strlit("4");
        reveal_strlit("5");
        reveal_strlit("6");
        reveal_strlit("7");
        reveal_strlit("8");
        reveal_strlit("9");
        reveal_strlit("a");
        reveal_strlit("b");
        reveal_strlit("c");
        reveal_strlit("d");
        reveal_strlit("e");
        reveal_strlit("f");
        assert(r@ =~= seq![digit_char(d as int)]);
    }
    r
}

/// The decimal rendering of `n`.
fn u128_to_decimal(n: u128) -> (r: String)
    ensures
        r@ == decimal_digits(n as int),
    decreases n,
{
    if n < 10 {
        String::from_str(digit_str(n as u64))
    } else {
        let mut s = u128_to_decimal(n / 10);
        s.append(digit_str((n % 10) as u64));
        proof {
            assert(s@ =~= decimal_digits(n as int));
        }
        s
    }
}

/// The decimal rendering of `n`.
pub fn u64_to_decimal(n: u64) -> (r: String)
    ensures
        r@ == decimal_digits(n as int),
{
    u128_to_decimal(n as u128)
}

/// The `width`-digit lowercase hexadecimal rendering of `n`.
fn u128_to_hex(n: u128, width: usize) -> (r: String)
    ensures
        r@ == hex_digits(n as int, width as nat),
    decreases width,
{
    if width == 0 {
        String::new()
    } else {
        let mut s = u128_to_hex(n / 16, width - 1);
        let d: u64 = (n % 16) as u64;
        s.append(digit_str(d));
        proof {
            assert(s@ =~= hex_digits(n as int, width as nat));
        }
        s
    }
}

/// The 32-digit lowercase hexadecimal rendering of a 128-bit digest,
/// as duplicate reports and exports show it.
pub fn digest_to_hex(d: u128) -> (r: String)
    ensures
        r@ == hex_digits(d as int, 32),
{
    u128_to_hex(d, 32)
}

/// `n / unit` written with two rounded decimals.
#[verifier::rlimit(30)]
fn scaled_two_decimals(n: u64, unit: u64) -> (r: String)
    requires
        1000 <= unit <= 1000000000,
    ensures
        r@ == two_decimals(rounded_hundredths(n as int, unit as int)),
{
    let num: u128 = (n as u128) * 100 + (unit as u128) / 2;
    let h: u128 = num / (unit as u128);
    proof {
        assert(h as int == rounded_hundredths(n as int, unit as int));
    }
    let mut s = u128_to_decimal(h / 100);
    s.append(".");
    s.append(digit_str(((h / 10) % 10) as u64));
    s.append(digit_str((h % 10) as u64));
    proof {
        let ghost hh = h as int;
        assert(s@ =~= decimal_digits(hh / 100) + "."@ + seq![
            digit_char((hh / 10) % 10),
            digit_char(hh % 10),
        ]);
        assert(s@ =~= two_decimals(hh));
    }
    s
}

/// The human-readable rendering of an unsigned byte count.
pub fn human_size_u64(bytes: u64) -> (r: String)
    ensures
        r@ == human_size(bytes as int),
{
    if bytes >= 1000000000 {
        let mut s = scaled_two_decimals(bytes, 1000000000);
        s.append(" GB");
        s
    } else if bytes >= 1000000 {
        let mut s = scaled_two_decimals(bytes, 1000000);
        s.append(" MB");
        s
    } else if bytes >= 1000 {
        let mut s = scaled_two_decimals(bytes, 1000);
        s.append(" KB");
        s
    } else {
        let mut s = u64_to_decimal(bytes);
        s.append(" bytes");
        s
    }
}

/// The human-readable byte format of the duplicate report: decimal units,
/// as file managers round them, never binary multiples.
pub fn bytes_a_formato_humano(bytes: i64) -> (r: String)
    ensures
        r@ == human_size(bytes as int),
{
    if bytes >= 0 {
        human_size_u64(bytes as u64)
    } else {
        let magnitude: i128 = -(bytes as i128);
        let mut s = String::from_str("-");
        let digits = u64_to_decimal(magnitude as u64);
        s.append(digits.as_str());
        s.append(" bytes");
        s
    }
}

} // verus!
