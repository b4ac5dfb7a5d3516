//! Decoding of the percent-escape convention used for variable values
//! (`%XX` stands for the byte with hexadecimal value `XX`).

use vstd::prelude::*;
use vstd::string::StringSliceAdditionalSpecFns;

use crate::error::NvramError;

verus! {

/// Whether `b` is an ASCII hexadecimal digit, in either case.
pub open spec fn is_hex_digit(b: u8) -> bool {
    (0x30 <= b && b <= 0x39) || (0x41 <= b && b <= 0x46) || (0x61 <= b && b <= 0x66)
}

/// The value of the hexadecimal digit `b`.
pub open spec fn hex_value(b: u8) -> nat
    recommends
        is_hex_digit(b),
{
    if 0x30 <= b && b <= 0x39 {
        (b - 0x30) as nat
    } else if 0x41 <= b && b <= 0x46 {
        (b - 0x41 + 10) as nat
    } else {
        (b - 0x61 + 10) as nat
    }
}

/// `Some(p + r)` when `rest` is `Some(r)`.
pub open spec fn prepend(p: Seq<u8>, rest: Option<Seq<u8>>) -> Option<Seq<u8>> {
    match rest {
        Some(r) => Some(p + r),
        None => None,
    }
}

/// The bytes that the escaped text `s` stands for: each `%` followed by two
/// hexadecimal digits becomes the byte they spell, every other byte stands
/// for itself. `None` when a `%` is not followed by two hexadecimal digits.
pub open spec fn unescape(s: Seq<u8>) -> Option<Seq<u8>>
    decreases s.len(),
{
    if s.len() == 0 {
        Some(Seq::empty())
    } else if s[0] == 0x25u8 {
        if s.len() >= 3 && is_hex_digit(s[1]) && is_hex_digit(s[2]) {
            prepend(
                seq![(16 * hex_value(s[1]) + hex_value(s[2])) as u8],
                unescape(s.subrange(3, s.len() as int)),
            )
        } else {
            None
        }
    } else {
        prepend(seq![s[0]], unescape(s.subrange(1, s.len() as int)))
    }
}

/// The value of a hexadecimal digit, or `None` for any other byte.
pub fn hex_digit(b: u8) -> (r: Option<u8>)
    ensures
        r.is_some() == is_hex_digit(b),
        r.is_some() ==> r.unwrap() as nat == hex_value(b),
{
    if 0x30 <= b && b <= 0x39 {
        Some(b - 0x30)
    } else if 0x41 <= b && b <= 0x46 {
        Some(b - 0x41 + 10)
    } else if 0x61 <= b && b <= 0x66 {
        Some(b - 0x61 + 10)
    } else {
        None
    }
}

/// Decodes escaped bytes; a malformed escape is `NvramError::InvalidHex`.
pub fn unescape_bytes(s: &[u8]) -> (r: Result<Vec<u8>, NvramError>)
    ensures
        unescape(s@) is Some <==> r is Ok,
        r is Ok ==> r->Ok_0@ == unescape(s@)->Some_0,
        r is Err ==> r->Err_0 is InvalidHex,
{
    let n = s.len();
    let mut out: Vec<u8> = Vec::new();
    let mut i: usize = 0;
    proof {
        assert(s@.subrange(0, n as int) =~= s@);
        match unescape(s@) {
            Some(t) => {
                assert(out@ + t =~= t);
            },
            None => {},
        }
    }
    while i < n
        invariant
            n == s@.len(),
            i <= n,
            unescape(s@) == prepend(out@, unescape(s@.subrange(i as int, n as int))),
        decreases n - i,
    {
        let ghost rest = s@.subrange(i as int, n as int);
        assert(rest[0] == s@[i as int]);
        if s[i] == 0x25u8 {
            if n - i > 2 {
                let hi = hex_digit(s[i + 1]);
                let lo = hex_digit(s[i + 2]);
                assert(rest[1] == s@[i + 1] && rest[2] == s@[i + 2]);
                match (hi, lo) {
                    (Some(h), Some(l)) => {
                        let byte: u8 = 16 * h + l;
                        assert(rest.subrange(3, rest.len() as int)
                            =~= s@.subrange(i + 3, n as int));
                        proof {
                            let p = seq![(16 * hex_value(rest[1]) + hex_value(rest[2])) as u8];
                            assert(p =~= seq![byte]);
                            match unescape(s@.subrange(i + 3, n as int)) {
                                Some(t) => {
                                    assert(out@ + (p + t) =~= out@.push(byte) + t);
                                },
                                None => {},
                            }
                        }
                        out.push(byte);
                        i = i + 3;
                    },
                    _ => {
                        return Err(NvramError::InvalidHex);
                    },
                }
            } else {
                return Err(NvramError::InvalidHex);
            }
        } else {
            assert(rest.subrange(1, rest.len() as int) =~= s@.subrange(i + 1, n as int));
            proof {
                match unescape(s@.subrange(i + 1, n as int)) {
                    Some(t) => {
                        assert(out@ + (seq![rest[0]] + t) =~= out@.push(s@[i as int]) + t);
                    },
                    None => {},
                }
            }
            out.push(s[i]);
            i = i + 1;
        }
    }
    assert(s@.subrange(n as int, n as int) =~= Seq::<u8>::empty());
    assert(out@ + Seq::<u8>::empty() =~= out@);
    Ok(out)
}

/// Decodes a value written with `%XX` escapes into the bytes it stands for.
pub fn read_var(val: &str) -> (r: Result<Vec<u8>, NvramError>)
    ensures
        unescape(val.spec_bytes()) is Some <==> r is Ok,
        r is Ok ==> r->Ok_0@ == unescape(val.spec_bytes())->Some_0,
        r is Err ==> r->Err_0 is InvalidHex,
{
    unescape_bytes(val.as_bytes())
}

} // verus!
