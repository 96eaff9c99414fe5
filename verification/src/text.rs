//! Decimal text: rendering an `i64` into a response body and reading an
//! `i64` out of a path segment, both against one mathematical description
//! of decimal notation.

use vstd::prelude::*;
use vstd::string::StringExecFns;

verus! {

/// ASCII codes the parser tells apart.
pub const BYTE_PLUS: u8 = 43;

pub const BYTE_MINUS: u8 = 45;

pub const BYTE_ZERO: u8 = 48;

pub const BYTE_NINE: u8 = 57;

/// The character for one decimal digit.
pub open spec fn digit_char(d: int) -> char {
    if d == 0 {
        '0'
    } else if d == 1 {
        '1'
    } else if d == 2 {
        '2'
    } else if d == 3 {
        '3'
    } else if d == 4 {
        '4'
    } else if d == 5 {
        '5'
    } else if d == 6 {
        '6'
    } else if d == 7 {
        '7'
    } else if d == 8 {
        '8'
    } else {
        '9'
    }
}

/// The decimal notation of a non-negative number: no sign, no leading
/// zero except for the number 0 itself.
pub open spec fn dec_chars(n: int) -> Seq<char>
    recommends
        n >= 0,
    decreases n,
{
    if n < 10 {
        seq![digit_char(n)]
    } else {
        dec_chars(n / 10).push(digit_char(n % 10))
    }
}

/// The decimal notation of a signed number: a leading '-' for a negative
/// one, no sign otherwise.
pub open spec fn i64_chars(v: int) -> Seq<char> {
    if v < 0 {
        seq!['-'] + dec_chars(-v)
    } else {
        dec_chars(v)
    }
}

/// The digit characters of `ds` in reverse order (`ds` holds digit values,
/// least significant first, as the extraction loop produces them).
pub open spec fn rev_chars(ds: Seq<u8>) -> Seq<char>
    decreases ds.len(),
{
    if ds.len() == 0 {
        Seq::<char>::empty()
    } else {
        seq![digit_char(ds.last() as int)] + rev_chars(ds.drop_last())
    }
}

proof fn lemma_rev_chars_len(ds: Seq<u8>)
    ensures
        rev_chars(ds).len() == ds.len(),
    decreases ds.len(),
{
    if ds.len() > 0 {
        lemma_rev_chars_len(ds.drop_last());
    }
}

proof fn lemma_rev_chars_index(ds: Seq<u8>, k: int)
    requires
        0 <= k < ds.len(),
    ensures
        rev_chars(ds)[k] == digit_char(ds[ds.len() - 1 - k] as int),
    decreases ds.len(),
{
    lemma_rev_chars_len(ds);
    if k > 0 {
        lemma_rev_chars_len(ds.drop_last());
        lemma_rev_chars_index(ds.drop_last(), k - 1);
    }
}

/// The one-character string for a digit value.
fn digit_str(d: u8) -> (r: &'static str)
    requires
        d < 10,
    ensures
        r@ == seq![digit_char(d as int)],
{
    match d {
        0 => {
            proof {
                reveal_strlit("0");
                assert("0"@ =~= seq![digit_char(0)]);
            }
            "0"
        },
        1 => {
            proof {
                reveal_strlit("1");
                assert("1"@ =~= seq![digit_char(1)]);
            }
            "1"
        },
        2 => {
            proof {
                reveal_strlit("2");
                assert("2"@ =~= seq![digit_char(2)]);
            }
            "2"
        },
        3 => {
            proof {
                reveal_strlit("3");
                assert("3"@ =~= seq![digit_char(3)]);
            }
            "3"
        },
        4 => {
            proof {
                reveal_strlit("4");
                assert("4"@ =~= seq![digit_char(4)]);
            }
            "4"
        },
        5 => {
            proof {
                reveal_strlit("5");
                assert("5"@ =~= seq![digit_char(5)]);
            }
            "5"
        },
        6 => {
            proof {
                reveal_strlit("6");
                assert("6"@ =~= seq![digit_char(6)]);
            }
            "6"
        },
        7 => {
            proof {
                reveal_strlit("7");
                assert("7"@ =~= seq![digit_char(7)]);
            }
            "7"
        },
        8 => {
            proof {
                reveal_strlit("8");
                assert("8"@ =~= seq![digit_char(8)]);
            }
            "8"
        },
        _ => {
            proof {
                reveal_strlit("9");
                assert("9"@ =~= seq![digit_char(9)]);
            }
            "9"
        },
    }
}

/// Append the decimal notation of `m` to `s`.
pub fn append_u64_dec(s: &mut String, m: u64)
    ensures
        final(s)@ == old(s)@ + dec_chars(m as int),
{
    let mut digits: Vec<u8> = Vec::new();
    let mut n: u64 = m;
    proof {
        assert(dec_chars(m as int) + rev_chars(digits@) =~= dec_chars(m as int));
    }
    loop
        invariant_except_break
            dec_chars(m as int) == dec_chars(n as int) + rev_chars(digits@),
            forall|j: int| 0 <= j < digits@.len() ==> (#[trigger] digits@[j]) < 10,
        ensures
            dec_chars(m as int) == rev_chars(digits@),
            forall|j: int| 0 <= j < digits@.len() ==> (#[trigger] digits@[j]) < 10,
        decreases n,
    {
        let d: u8 = (n % 10) as u8;
        let n0: u64 = n;
        let ghost dsold = digits@;
        digits.push(d);
        n = n / 10;
        proof {
            assert(digits@.drop_last() =~= dsold);
            assert(digits@.last() == d);
            assert(rev_chars(digits@) == seq![digit_char(d as int)] + rev_chars(dsold));
            if n0 >= 10 {
                assert(dec_chars(n0 as int) == dec_chars(n0 as int / 10).push(
                    digit_char(n0 as int % 10),
                ));
                assert(dec_chars(n as int).push(digit_char(d as int)) + rev_chars(dsold)
                    =~= dec_chars(n as int) + (seq![digit_char(d as int)] + rev_chars(dsold)));
            } else {
                assert(dec_chars(n0 as int) == seq![digit_char(n0 as int)]);
                assert(seq![digit_char(d as int)] + rev_chars(dsold) =~= dec_chars(n0 as int)
                    + rev_chars(dsold));
            }
        }
        if n == 0 {
            break;
        }
    }
    let ghost whole = dec_chars(m as int);
    let ghost base = s@;
    proof {
        lemma_rev_chars_len(digits@);
        assert(base + whole.take(0) =~= base);
    }
    let mut k: usize = 0;
    while k < digits.len()
        invariant
            whole == dec_chars(m as int),
            whole == rev_chars(digits@),
            digits@.len() == whole.len(),
            forall|j: int| 0 <= j < digits@.len() ==> (#[trigger] digits@[j]) < 10,
            k <= digits@.len(),
            base == old(s)@,
            s@ == base + whole.take(k as int),
        decreases digits@.len() - k,
    {
        let idx: usize = digits.len() - 1 - k;
        let d: u8 = digits[idx];
        s.append(digit_str(d));
        proof {
            lemma_rev_chars_index(digits@, k as int);
            assert(whole[k as int] == digit_char(d as int));
            assert((base + whole.take(k as int)) + seq![digit_char(d as int)] =~= base
                + whole.take(k as int + 1));
        }
        k = k + 1;
    }
    proof {
        assert(whole.take(whole.len() as int) =~= whole);
    }
}

/// Append the decimal notation of `v`, sign included, to `s`.
pub fn append_i64_dec(s: &mut String, v: i64)
    ensures
        final(s)@ == old(s)@ + i64_chars(v as int),
{
    if v >= 0 {
        append_u64_dec(s, v as u64);
    } else {
        let ghost base = s@;
        s.append("-");
        let m: u64 = (-(v as i128)) as u64;
        proof {
            reveal_strlit("-");
            assert("-"@ =~= seq!['-']);
            assert(0 <= -(v as i128) <= u64::MAX);
            assert(m as int == -(v as int));
        }
        append_u64_dec(s, m);
        proof {
            assert((base + "-"@) + dec_chars(m as int) =~= base + (seq!['-'] + dec_chars(
                -(v as int),
            )));
        }
    }
}

/// Whether a byte is an ASCII decimal digit.
pub open spec fn is_digit(b: u8) -> bool {
    BYTE_ZERO <= b <= BYTE_NINE
}

pub open spec fn all_digits(s: Seq<u8>) -> bool {
    forall|i: int| 0 <= i < s.len() ==> is_digit(#[trigger] s[i])
}

/// The number the digit bytes of `s` denote, most significant first.
pub open spec fn dec_val(s: Seq<u8>) -> int
    decreases s.len(),
{
    if s.len() == 0 {
        0
    } else {
        dec_val(s.drop_last()) * 10 + (s.last() - BYTE_ZERO)
    }
}

/// Whether `s` opens with an explicit sign byte.
pub open spec fn has_sign(s: Seq<u8>) -> bool {
    s.len() > 0 && (s[0] == BYTE_PLUS || s[0] == BYTE_MINUS)
}

/// The digit bytes of `s`: everything after the sign, if there is one.
pub open spec fn digits_part(s: Seq<u8>) -> Seq<u8> {
    if has_sign(s) {
        s.drop_first()
    } else {
        s
    }
}

/// The signed number `s` denotes.
pub open spec fn int_val(s: Seq<u8>) -> int {
    if s.len() > 0 && s[0] == BYTE_MINUS {
        -dec_val(digits_part(s))
    } else {
        dec_val(digits_part(s))
    }
}

/// Whether `s` is decimal notation for a number an `i64` can hold: an
/// optional sign, then at least one digit and nothing else, denoting a
/// value in range.
pub open spec fn parses_as_i64(s: Seq<u8>) -> bool {
    &&& digits_part(s).len() > 0
    &&& all_digits(digits_part(s))
    &&& i64::MIN <= int_val(s) <= i64::MAX
}

proof fn lemma_dec_val_nonneg(s: Seq<u8>)
    requires
        all_digits(s),
    ensures
        dec_val(s) >= 0,
    decreases s.len(),
{
    if s.len() > 0 {
        assert(all_digits(s.drop_last()));
        lemma_dec_val_nonneg(s.drop_last());
    }
}

/// Reading further digits never shrinks the value: the number denoted by a
/// prefix is a lower bound for the number denoted by the whole.
proof fn lemma_dec_val_prefix_le(s: Seq<u8>, j: int)
    requires
        all_digits(s),
        0 <= j <= s.len(),
    ensures
        dec_val(s.take(j)) <= dec_val(s),
    decreases s.len() - j,
{
    if j == s.len() {
        assert(s.take(j) =~= s);
    } else {
        assert(s.take(j + 1).drop_last() =~= s.take(j));
        assert(all_digits(s.take(j)));
        lemma_dec_val_nonneg(s.take(j));
        assert(dec_val(s.take(j + 1)) == dec_val(s.take(j)) * 10 + (s[j] - BYTE_ZERO));
        lemma_dec_val_prefix_le(s, j + 1);
    }
}

/// Read an `i64` from decimal bytes, exactly as the path segment of a
/// delete route is read: `Some` on well-formed notation in range, `None`
/// otherwise.
pub fn parse_i64(s: &[u8]) -> (r: Option<i64>)
    ensures
        r matches Some(v) ==> parses_as_i64(s@) && v as int == int_val(s@),
        r is None ==> !parses_as_i64(s@),
{
    let len: usize = s.len();
    let neg: bool = len > 0 && s[0] == BYTE_MINUS;
    let start: usize = if len > 0 && (s[0] == BYTE_PLUS || s[0] == BYTE_MINUS) {
        1
    } else {
        0
    };
    if start == len {
        proof {
            assert(digits_part(s@).len() == 0);
        }
        return None;
    }
    let ghost ds = digits_part(s@);
    proof {
        assert(ds =~= s@.subrange(start as int, len as int));
    }
    let mut acc: u128 = 0;
    let mut i: usize = start;
    proof {
        assert(s@.subrange(start as int, start as int) =~= Seq::<u8>::empty());
    }
    while i < len
        invariant
            start <= i <= len,
            len == s@.len(),
            start < len,
            ds == digits_part(s@),
            ds =~= s@.subrange(start as int, len as int),
            neg == (s@[0] == BYTE_MINUS),
            acc as int == dec_val(s@.subrange(start as int, i as int)),
            acc <= 0x8000_0000_0000_0000u128,
            all_digits(s@.subrange(start as int, i as int)),
        decreases len - i,
    {
        let b: u8 = s[i];
        if b < BYTE_ZERO || b > BYTE_NINE {
            proof {
                assert(ds[i - start] == s@[i as int]);
                assert(!all_digits(ds));
            }
            return None;
        }
        let d: u128 = (b - BYTE_ZERO) as u128;
        let ghost seen = s@.subrange(start as int, i as int);
        acc = acc * 10 + d;
        i = i + 1;
        proof {
            let seen2 = s@.subrange(start as int, i as int);
            assert(seen2.drop_last() =~= seen);
            assert(seen2.last() == s@[i - 1]);
            assert(acc as int == dec_val(seen2));
            assert(all_digits(seen2));
        }
        if acc > 0x8000_0000_0000_0000u128 {
            proof {
                if all_digits(ds) {
                    let seen2 = s@.subrange(start as int, i as int);
                    assert(ds.take(i - start) =~= seen2);
                    lemma_dec_val_prefix_le(ds, i - start);
                    assert(dec_val(ds) > 0x8000_0000_0000_0000);
                }
            }
            return None;
        }
    }
    proof {
        assert(s@.subrange(start as int, len as int) =~= ds);
        assert(acc as int == dec_val(ds));
        assert(all_digits(ds));
        lemma_dec_val_nonneg(ds);
    }
    if neg {
        let v: i64 = (-(acc as i128)) as i64;
        proof {
            assert(i64::MIN <= -(acc as i128) <= i64::MAX);
            assert(v as int == -(acc as int));
            assert(v as int == int_val(s@));
        }
        Some(v)
    } else {
        if acc > i64::MAX as u128 {
            proof {
                assert(int_val(s@) > i64::MAX);
            }
            None
        } else {
            let v: i64 = acc as i64;
            proof {
                assert(v as int == int_val(s@));
            }
            Some(v)
        }
    }
}

} // verus!
