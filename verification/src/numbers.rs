//! Decimal integers written in text, read the way Rust's `FromStr` for the
//! integer types reads them: an optional sign, then one or more ASCII digits,
//! and a value that fits the type.
use vstd::prelude::*;
use vstd::string::StrSliceExecFns;

verus! {

/// Every character of `s` is an ASCII digit.
pub open spec fn spec_all_digits(s: Seq<char>) -> bool {
    forall|i: int| 0 <= i < s.len() ==> '0' <= #[trigger] s[i] && s[i] <= '9'
}

/// The value of a string of decimal digits.
pub open spec fn spec_digits_value(s: Seq<char>) -> nat
    decreases s.len(),
{
    if s.len() == 0 {
        0
    } else {
        spec_digits_value(s.drop_last()) * 10 + ((s.last() as u32) - ('0' as u32)) as nat
    }
}

/// The value of one or more decimal digits, if it is at most `max`.
pub open spec fn spec_digits_up_to(d: Seq<char>, max: nat) -> Option<nat> {
    if d.len() > 0 && spec_all_digits(d) && spec_digits_value(d) <= max {
        Some(spec_digits_value(d))
    } else {
        None
    }
}

/// A `u32` in decimal: an optional '+', then digits.
pub open spec fn spec_parse_u32(s: Seq<char>) -> Option<u32> {
    let d = if s.len() > 0 && s[0] == '+' {
        s.drop_first()
    } else {
        s
    };
    match spec_digits_up_to(d, u32::MAX as nat) {
        Some(v) => Some(v as u32),
        None => None,
    }
}

/// An `i32` in decimal: an optional '+' or '-', then digits.
pub open spec fn spec_parse_i32(s: Seq<char>) -> Option<i32> {
    if s.len() > 0 && s[0] == '-' {
        match spec_digits_up_to(s.drop_first(), 0x8000_0000) {
            Some(v) => Some((-(v as int)) as i32),
            None => None,
        }
    } else {
        let d = if s.len() > 0 && s[0] == '+' {
            s.drop_first()
        } else {
            s
        };
        match spec_digits_up_to(d, i32::MAX as nat) {
            Some(v) => Some(v as i32),
            None => None,
        }
    }
}

/// The smaller of a value and a cap.
pub open spec fn spec_capped(v: nat, cap: nat) -> nat {
    if v < cap {
        v
    } else {
        cap
    }
}

/// Capping can be applied at every digit instead of at the end.
pub proof fn lemma_capped_step(v: nat, d: nat, cap: nat)
    ensures
        spec_capped(v * 10 + d, cap) == spec_capped(spec_capped(v, cap) * 10 + d, cap),
{
    if v >= cap {
        assert(v * 10 + d >= cap) by (nonlinear_arith)
            requires
                v >= cap,
        ;
        assert(cap * 10 + d >= cap) by (nonlinear_arith);
    }
}

/// The value of the digits of `s` from `start` on, capped at `cap`, or none
/// when that part is empty or holds a non-digit.
pub fn digits_value_capped(s: &str, start: usize, cap: u64) -> (r: Option<u64>)
    requires
        start <= s@.len(),
        cap < 0x1_0000_0000_0000,
    ensures
        ({
            let d = s@.subrange(start as int, s@.len() as int);
            match r {
                Some(v) => d.len() > 0 && spec_all_digits(d) && v == spec_capped(
                    spec_digits_value(d),
                    cap as nat,
                ),
                None => !(d.len() > 0 && spec_all_digits(d)),
            }
        }),
{
    let len = s.unicode_len();
    if start == len {
        return None;
    }
    let ghost d = s@.subrange(start as int, len as int);
    let mut i = start;
    let mut value: u64 = 0;
    while i < len
        invariant
            start <= i <= len,
            len == s@.len(),
            cap < 0x1_0000_0000_0000,
            d == s@.subrange(start as int, len as int),
            spec_all_digits(s@.subrange(start as int, i as int)),
            value == spec_capped(spec_digits_value(s@.subrange(start as int, i as int)), cap as nat),
        decreases len - i,
    {
        let ch = s.get_char(i);
        if !('0' <= ch && ch <= '9') {
            assert(d[i - start] == ch);
            return None;
        }
        let digit = (ch as u32 - '0' as u32) as u64;
        proof {
            let prev = s@.subrange(start as int, i as int);
            let next = s@.subrange(start as int, i + 1);
            assert(next.drop_last() =~= prev);
            assert(next.last() == ch);
            lemma_capped_step(spec_digits_value(prev), digit as nat, cap as nat);
            assert(spec_all_digits(next)) by {
                assert forall|j: int| 0 <= j < next.len() implies '0' <= #[trigger] next[j]
                    && next[j] <= '9' by {
                    if j < prev.len() {
                        assert(next[j] == prev[j]);
                    }
                }
            }
        }
        let stepped = value * 10 + digit;
        value = if stepped < cap {
            stepped
        } else {
            cap
        };
        i = i + 1;
    }
    assert(d =~= s@.subrange(start as int, i as int));
    Some(value)
}

/// Parse a `u32` as `str::parse::<u32>` does.
pub fn parse_u32(s: &str) -> (r: Option<u32>)
    ensures
        r == spec_parse_u32(s@),
{
    let len = s.unicode_len();
    let start: usize = if len > 0 && s.get_char(0) == '+' {
        1
    } else {
        0
    };
    proof {
        assert(s@.subrange(start as int, s@.len() as int) =~= (if s@.len() > 0 && s@[0] == '+' {
            s@.drop_first()
        } else {
            s@
        }));
    }
    match digits_value_capped(s, start, 0x1_0000_0000) {
        Some(v) => {
            if v <= 0xFFFF_FFFF {
                Some(v as u32)
            } else {
                None
            }
        },
        None => None,
    }
}

/// Parse an `i32` as `str::parse::<i32>` does.
pub fn parse_i32(s: &str) -> (r: Option<i32>)
    ensures
        r == spec_parse_i32(s@),
{
    let len = s.unicode_len();
    if len > 0 && s.get_char(0) == '-' {
        proof {
            assert(s@.subrange(1, s@.len() as int) =~= s@.drop_first());
        }
        return match digits_value_capped(s, 1, 0x8000_0001) {
            Some(v) => {
                if v <= 0x8000_0000 {
                    let neg = 0i64 - (v as i64);
                    Some(neg as i32)
                } else {
                    None
                }
            },
            None => None,
        };
    }
    let start: usize = if len > 0 && s.get_char(0) == '+' {
        1
    } else {
        0
    };
    proof {
        assert(s@.subrange(start as int, s@.len() as int) =~= (if s@.len() > 0 && s@[0] == '+' {
            s@.drop_first()
        } else {
            s@
        }));
    }
    match digits_value_capped(s, start, 0x8000_0000) {
        Some(v) => {
            if v <= 0x7FFF_FFFF {
                Some(v as i32)
            } else {
                None
            }
        },
        None => None,
    }
}

} // verus!
