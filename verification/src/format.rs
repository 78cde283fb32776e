//! Human-readable rendering of byte counts: decimal digits, rounding to one
//! decimal place, and the unit ladder B / KB / MB / GB / TB.

use vstd::prelude::*;

verus! {

/// The ten decimal digit characters.
pub open spec fn digit_char(d: nat) -> char {
    if d == 0 {
        '0'
    } else if d == 1 {
        '1'
    } else if d == 2 {
        '2'
    } else if d == 3 {
        '3'
    } else if d == 4 {
        '4'
    } else if d == 5 {
        '5'
    } else if d == 6 {
        '6'
    } else if d == 7 {
        '7'
    } else if d == 8 {
        '8'
    } else {
        '9'
    }
}

/// Decimal rendering of a natural number, most significant digit first,
/// without leading zeros (except for the number zero itself).
pub open spec fn spec_dec(n: nat) -> Seq<char>
    decreases n,
{
    if n < 10 {
        seq![digit_char(n)]
    } else {
        spec_dec(n / 10) + seq![digit_char(n % 10)]
    }
}

fn digit_str(d: u64) -> (r: &'static str)
    requires
        d < 10,
    ensures
        r@ =~= seq![digit_char(d as nat)],
{
    proof {
        reveal_strlit("0");
        reveal_strlit("1");
        reveal_strlit("2");
        reveal_strlit("3");
        reveal_strlit("4");
        reveal_strlit("5");
        reveal_strlit("6");
        reveal_strlit("7");
        reveal_strlit("8");
        reveal_strlit("9");
    }
    if d == 0 {
        "0"
    } else if d == 1 {
        "1"
    } else if d == 2 {
        "2"
    } else if d == 3 {
        "3"
    } else if d == 4 {
        "4"
    } else if d == 5 {
        "5"
    } else if d == 6 {
        "6"
    } else if d == 7 {
        "7"
    } else if d == 8 {
        "8"
    } else {
        "9"
    }
}

/// Nearest integer to `num / den`, ties going to the even quotient.
pub open spec fn round_half_even(num: int, den: int) -> int
    recommends
        den > 0,
        num >= 0,
{
    let q = num / den;
    let r = num % den;
    if 2 * r < den {
        q
    } else if 2 * r > den {
        q + 1
    } else if q % 2 == 0 {
        q
    } else {
        q + 1
    }
}

fn div_round_half_even(num: u128, den: u128) -> (r: u128)
    requires
        den > 0,
        num < u128::MAX,
    ensures
        r as int == round_half_even(num as int, den as int),
{
    let q: u128 = num / den;
    let rem: u128 = num % den;
    proof {
        vstd::arithmetic::div_mod::lemma_div_nonincreasing(num as int, den as int);
        vstd::arithmetic::div_mod::lemma_div_pos_is_pos(num as int, den as int);
    }
    if rem < den - rem {
        q
    } else if rem > den - rem {
        q + 1
    } else if q % 2 == 0 {
        q
    } else {
        q + 1
    }
}

/// Renders `n` in decimal.
pub fn u64_to_dec(n: u64) -> (r: String)
    ensures
        r@ == spec_dec(n as nat),
    decreases n,
{
    if n < 10 {
        let s = String::from_str(digit_str(n));
        proof {
            assert(s@ =~= spec_dec(n as nat));
        }
        s
    } else {
        let mut s = u64_to_dec(n / 10);
        s.append(digit_str(n % 10));
        proof {
            assert(s@ =~= spec_dec(n as nat));
        }
        s
    }
}

pub const KIB1: u128 = 1024;

pub const KIB2: u128 = 1024 * 1024;

pub const KIB3: u128 = 1024 * 1024 * 1024;

pub const KIB4: u128 = 1024 * 1024 * 1024 * 1024;

/// `bytes / den` rendered with exactly one decimal digit, e.g. `1536 / 1024`
/// gives the characters `1.5`.
pub open spec fn spec_scaled(bytes: nat, den: nat) -> Seq<char>
    recommends
        den > 0,
{
    let tenths = round_half_even((bytes * 10) as int, den as int);
    spec_dec((tenths / 10) as nat) + "."@ + seq![digit_char((tenths % 10) as nat)]
}

/// Human-readable rendering of a byte count. A count under 1024 is given as an
/// integer number of bytes; otherwise the count is divided by 1024 until it is
/// under 1024 or the unit ladder ends at TB, and rendered with one decimal
/// digit and that unit.
pub open spec fn spec_format_size(bytes: nat) -> Seq<char> {
    if bytes == 0 {
        "0 B"@
    } else if bytes < KIB1 as nat {
        spec_dec(bytes) + " B"@
    } else if bytes < KIB2 as nat {
        spec_scaled(bytes, KIB1 as nat) + " KB"@
    } else if bytes < KIB3 as nat {
        spec_scaled(bytes, KIB2 as nat) + " MB"@
    } else if bytes < KIB4 as nat {
        spec_scaled(bytes, KIB3 as nat) + " GB"@
    } else {
        spec_scaled(bytes, KIB4 as nat) + " TB"@
    }
}

fn scaled(b: u128, den: u128) -> (r: String)
    requires
        den >= 1024,
        b < den * 1024 || den == KIB4,
        b < 0x1_0000_0000_0000_0000,
    ensures
        r@ == spec_scaled(b as nat, den as nat),
{
    let tenths: u128 = div_round_half_even(b * 10, den);
    proof {
        vstd::arithmetic::div_mod::lemma_multiply_divide_lt(
            (b * 10) as int,
            den as int,
            0x10000000 as int,
        );
        assert(tenths as int <= ((b * 10) as int) / (den as int) + 1);
        assert(tenths < 0x10000001);
    }
    let whole: u64 = (tenths / 10) as u64;
    let frac: u64 = (tenths % 10) as u64;
    let mut s = u64_to_dec(whole);
    s.append(".");
    s.append(digit_str(frac));
    proof {
        assert(s@ =~= spec_scaled(b as nat, den as nat));
    }
    s
}

/// The share of `size` in `total`, in tenths of a percent, rounded to the
/// nearest tenth. A zero total (only possible when every artifact is empty)
/// gives zero by convention.
pub open spec fn spec_pct_tenths(size: nat, total: nat) -> int {
    if total == 0 {
        0
    } else {
        round_half_even((size * 1000) as int, total as int)
    }
}

/// The percentage of `size` in `total` rendered with one decimal digit,
/// e.g. `512` of `1536` gives the characters `33.3`.
pub open spec fn spec_pct(size: nat, total: nat) -> Seq<char> {
    let t = spec_pct_tenths(size, total);
    spec_dec((t / 10) as nat) + "."@ + seq![digit_char((t % 10) as nat)]
}

/// Renders the percentage of `size` in `total` with one decimal digit.
pub fn pct_str(size: usize, total: u128) -> (r: String)
    requires
        size as nat <= total as nat || total == 0,
    ensures
        r@ == spec_pct(size as nat, total as nat),
{
    let tenths: u128 = if total == 0 {
        0
    } else {
        let t = div_round_half_even((size as u128) * 1000, total);
        proof {
            vstd::arithmetic::div_mod::lemma_multiply_divide_le(
                (size as u128 * 1000) as int,
                total as int,
                1000int,
            );
            assert(t <= 1001);
        }
        t
    };
    let whole: u64 = (tenths / 10) as u64;
    let frac: u64 = (tenths % 10) as u64;
    let mut s = u64_to_dec(whole);
    s.append(".");
    s.append(digit_str(frac));
    proof {
        assert(s@ =~= spec_pct(size as nat, total as nat));
    }
    s
}

/// Human-readable rendering of a byte count, per `spec_format_size`.
pub fn format_size(bytes: usize) -> (r: String)
    ensures
        r@ == spec_format_size(bytes as nat),
{
    if bytes == 0 {
        let r = String::from_str("0 B");
        return r;
    }
    let b: u128 = bytes as u128;
    if b < KIB1 {
        let mut s = u64_to_dec(bytes as u64);
        s.append(" B");
        proof {
            assert(s@ =~= spec_format_size(bytes as nat));
        }
        s
    } else {
        let den: u128 = if b < KIB2 {
            KIB1
        } else if b < KIB3 {
            KIB2
        } else if b < KIB4 {
            KIB3
        } else {
            KIB4
        };
        let unit: &'static str = if b < KIB2 {
            " KB"
        } else if b < KIB3 {
            " MB"
        } else if b < KIB4 {
            " GB"
        } else {
            " TB"
        };
        let mut s = scaled(b, den);
        s.append(unit);
        proof {
            assert(s@ =~= spec_format_size(bytes as nat));
        }
        s
    }
}

} // verus!
