//! `i64` from text, exactly as std's `FromStr` for `i64` reads it, with the
//! same error kinds and messages.

use vstd::prelude::*;
use crate::config::overrides::is_digit;
use crate::text::chars_of;

verus! {

/// Why text is not an `i64`.
#[derive(Debug, Clone, Copy, PartialEq, Eq, Structural)]
pub enum IntErrorKind {
    Empty,
    InvalidDigit,
    PosOverflow,
    NegOverflow,
}

/// The message std's `ParseIntError` displays for each kind.
pub open spec fn int_error_text(k: IntErrorKind) -> Seq<char> {
    match k {
        IntErrorKind::Empty => "cannot parse integer from empty string"@,
        IntErrorKind::InvalidDigit => "invalid digit found in string"@,
        IntErrorKind::PosOverflow => "number too large to fit in target type"@,
        IntErrorKind::NegOverflow => "number too small to fit in target type"@,
    }
}

impl IntErrorKind {
    pub fn message(self) -> (r: &'static str)
        ensures
            r@ == int_error_text(self),
    {
        match self {
            IntErrorKind::Empty => "cannot parse integer from empty string",
            IntErrorKind::InvalidDigit => "invalid digit found in string",
            IntErrorKind::PosOverflow => "number too large to fit in target type",
            IntErrorKind::NegOverflow => "number too small to fit in target type",
        }
    }
}

/// Reading digits `ds[i..]` after magnitude `acc`: the first non-digit is
/// an invalid digit, and the first digit that takes the magnitude past the
/// type's range (`2^63` for a negative number, `2^63 - 1` otherwise) an
/// overflow.
pub open spec fn scan_digits(ds: Seq<char>, i: int, acc: int, neg: bool) -> Result<int, IntErrorKind>
    decreases ds.len() - i,
{
    if i < 0 || i >= ds.len() {
        Ok(if neg {
            -acc
        } else {
            acc
        })
    } else if !is_digit(ds[i]) {
        Err(IntErrorKind::InvalidDigit)
    } else {
        let next = acc * 10 + (ds[i] as int - 48);
        if neg && next > 0x8000_0000_0000_0000 {
            Err(IntErrorKind::NegOverflow)
        } else if !neg && next > 0x7FFF_FFFF_FFFF_FFFF {
            Err(IntErrorKind::PosOverflow)
        } else {
            scan_digits(ds, i + 1, next, neg)
        }
    }
}

/// `s.parse::<i64>()`: an optional sign, then at least one digit.
pub open spec fn spec_parse_i64(s: Seq<char>) -> Result<int, IntErrorKind> {
    if s.len() == 0 {
        Err(IntErrorKind::Empty)
    } else if s.len() == 1 && (s[0] == '+' || s[0] == '-') {
        Err(IntErrorKind::InvalidDigit)
    } else if s[0] == '-' {
        scan_digits(s.drop_first(), 0, 0, true)
    } else if s[0] == '+' {
        scan_digits(s.drop_first(), 0, 0, false)
    } else {
        scan_digits(s, 0, 0, false)
    }
}

proof fn lemma_scan_range(ds: Seq<char>, i: int, acc: int, neg: bool)
    requires
        0 <= acc,
        neg ==> acc <= 0x8000_0000_0000_0000,
        !neg ==> acc <= 0x7FFF_FFFF_FFFF_FFFF,
    ensures
        scan_digits(ds, i, acc, neg) matches Ok(v) ==> i64::MIN <= v <= i64::MAX,
    decreases ds.len() - i,
{
    if 0 <= i < ds.len() && is_digit(ds[i]) {
        let next = acc * 10 + (ds[i] as int - 48);
        if (neg && next <= 0x8000_0000_0000_0000) || (!neg && next <= 0x7FFF_FFFF_FFFF_FFFF) {
            lemma_scan_range(ds, i + 1, next, neg);
        }
    }
}

/// Parses text as std parses an `i64`.
pub fn parse_i64(s: &str) -> (r: Result<i64, IntErrorKind>)
    ensures
        match (r, spec_parse_i64(s@)) {
            (Ok(a), Ok(b)) => a == b,
            (Err(a), Err(b)) => a == b,
            _ => false,
        },
{
    let v = chars_of(s);
    if v.len() == 0 {
        return Err(IntErrorKind::Empty);
    }
    if v.len() == 1 && (v[0] == '+' || v[0] == '-') {
        return Err(IntErrorKind::InvalidDigit);
    }
    let neg = v[0] == '-';
    let start: usize = if v[0] == '-' || v[0] == '+' {
        1
    } else {
        0
    };
    let ghost ds = v@.subrange(start as int, v@.len() as int);
    proof {
        if start == 1 {
            assert(ds =~= s@.drop_first());
        } else {
            assert(ds =~= s@);
        }
        assert(spec_parse_i64(s@) == scan_digits(ds, 0, 0, neg));
    }
    // The magnitude read so far, at most 2^63.
    let mut acc: u64 = 0;
    let mut i: usize = start;
    while i < v.len()
        invariant
            start <= i <= v@.len(),
            ds == v@.subrange(start as int, v@.len() as int),
            spec_parse_i64(s@) == scan_digits(ds, 0, 0, neg),
            neg ==> acc <= 0x8000_0000_0000_0000u64,
            !neg ==> acc <= 0x7FFF_FFFF_FFFF_FFFFu64,
            scan_digits(ds, i - start, acc as int, neg) == scan_digits(ds, 0, 0, neg),
        decreases v.len() - i,
    {
        let c = v[i];
        assert(ds[i - start] == c);
        if !('0' <= c && c <= '9') {
            return Err(IntErrorKind::InvalidDigit);
        }
        let d: u64 = (c as u64) - 48;
        let limit: u64 = if neg {
            0x8000_0000_0000_0000u64
        } else {
            0x7FFF_FFFF_FFFF_FFFFu64
        };
        if acc > (limit - d) / 10 {
            assert(acc * 10 + d > limit) by (nonlinear_arith)
                requires
                    acc > (limit - d) / 10,
                    d <= limit,
            ;
            return Err(
                if neg {
                    IntErrorKind::NegOverflow
                } else {
                    IntErrorKind::PosOverflow
                },
            );
        }
        assert(acc * 10 + d <= limit) by (nonlinear_arith)
            requires
                acc <= (limit - d) / 10,
                d <= limit,
        ;
        acc = acc * 10 + d;
        i = i + 1;
    }
    proof {
        lemma_scan_range(ds, i - start, acc as int, neg);
    }
    if neg {
        if acc == 0x8000_0000_0000_0000u64 {
            Ok(-9223372036854775808i64)
        } else {
            Ok(-(acc as i64))
        }
    } else {
        Ok(acc as i64)
    }
}

} // verus!
