//! Byte-level text utilities for the sentence tokenizer: splitting on a
//! delimiter, parsing decimal integers, and the XOR checksum fold.

use vstd::prelude::*;
use crate::records::NavError;

verus! {

/// The fields obtained by splitting `s` on the delimiter `d`.
///
/// There is always at least one field; `n` delimiters yield `n + 1` fields,
/// and the delimiter itself appears in none of them.
pub open spec fn split_on(s: Seq<u8>, d: u8) -> Seq<Seq<u8>>
    decreases s.len(),
{
    if s.len() == 0 {
        seq![Seq::empty()]
    } else if s[0] == d {
        seq![Seq::empty()] + split_on(s.skip(1), d)
    } else {
        let rest = split_on(s.skip(1), d);
        seq![seq![s[0]] + rest[0]] + rest.skip(1)
    }
}

/// `split_on` always yields at least one field.
pub proof fn lemma_split_on_nonempty(s: Seq<u8>, d: u8)
    ensures
        split_on(s, d).len() >= 1,
    decreases s.len(),
{
    if s.len() != 0 {
        lemma_split_on_nonempty(s.skip(1), d);
    }
}

/// Splits `s` on the delimiter `d`, yielding the fields of [`split_on`].
pub fn split_bytes(s: &[u8], d: u8) -> (r: Vec<Vec<u8>>)
    ensures
        r@.len() == split_on(s@, d).len(),
        forall|k: int| 0 <= k < r@.len() ==> #[trigger] r@[k]@ == split_on(s@, d)[k],
{
    let ghost whole = s@;
    let mut fields: Vec<Vec<u8>> = Vec::new();
    fields.push(Vec::new());
    let mut i: usize = s.len();
    proof {
        assert(whole.skip(i as int) =~= Seq::<u8>::empty());
    }
    while i > 0
        invariant
            i <= s.len(),
            s@ == whole,
            fields@.len() == split_on(whole.skip(i as int), d).len(),
            forall|k: int|
                0 <= k < fields@.len() ==> #[trigger] fields@[k]@ == split_on(
                    whole.skip(i as int),
                    d,
                )[k],
        decreases i,
    {
        i = i - 1;
        let ghost cur = whole.skip(i as int);
        proof {
            assert(cur.skip(1) =~= whole.skip(i + 1));
            assert(cur[0] == whole[i as int]);
            lemma_split_on_nonempty(cur.skip(1), d);
        }
        let c = s[i];
        if c == d {
            fields.insert(0, Vec::new());
            proof {
                assert(split_on(cur, d) =~= seq![Seq::<u8>::empty()] + split_on(cur.skip(1), d));
            }
        } else {
            let mut first = fields.remove(0);
            first.insert(0, c);
            fields.insert(0, first);
            proof {
                let rest = split_on(cur.skip(1), d);
                assert(split_on(cur, d) == seq![seq![cur[0]] + rest[0]] + rest.skip(1));
                assert(fields@[0]@ =~= seq![cur[0]] + rest[0]);
                assert forall|k: int| 0 <= k < fields@.len() implies #[trigger] fields@[k]@
                    == split_on(cur, d)[k] by {
                    if k > 0 {
                        assert(fields@[k]@ == rest[k]);
                        assert(split_on(cur, d)[k] == rest.skip(1)[k - 1]);
                    }
                }
            }
        }
    }
    proof {
        assert(whole.skip(0) =~= whole);
    }
    fields
}

/// Whether `b` is the ASCII code of a decimal digit.
pub open spec fn is_dec_digit(b: u8) -> bool {
    48 <= b <= 57
}

/// Whether every byte of `s` is a decimal digit.
pub open spec fn is_dec_digits(s: Seq<u8>) -> bool {
    forall|i: int| 0 <= i < s.len() ==> is_dec_digit(#[trigger] s[i])
}

/// The value of `s` read as decimal digits, most significant first. A byte
/// that is no digit contributes zero; parsers only use this value on all-digit
/// text.
pub open spec fn dec_digits_value(s: Seq<u8>) -> nat
    decreases s.len(),
{
    if s.len() == 0 {
        0
    } else {
        dec_digits_value(s.drop_last()) * 10 + (if is_dec_digit(s.last()) {
            (s.last() - 48) as nat
        } else {
            0
        })
    }
}

/// Reading more digits never decreases the value.
proof fn lemma_dec_value_monotone(s: Seq<u8>, i: int)
    requires
        0 <= i <= s.len(),
    ensures
        dec_digits_value(s.take(i)) <= dec_digits_value(s),
    decreases s.len() - i,
{
    if i < s.len() {
        assert(s.take(i + 1).drop_last() =~= s.take(i));
        assert(s.take(i + 1).last() == s[i]);
        lemma_dec_value_monotone(s, i + 1);
    } else {
        assert(s.take(i) =~= s);
    }
}

/// Parses the digits of `s` from `start` on as an unsigned decimal number of
/// at most `bound`; `None` when empty, when a non-digit appears, or when the
/// value exceeds `bound`.
fn parse_digits(s: &[u8], start: usize, bound: u64) -> (r: Option<u64>)
    requires
        start <= s@.len(),
    ensures
        match r {
            Some(v) => {
                &&& s@.len() > start
                &&& is_dec_digits(s@.skip(start as int))
                &&& dec_digits_value(s@.skip(start as int)) == v
                &&& v <= bound
            },
            None => !({
                &&& s@.len() > start
                &&& is_dec_digits(s@.skip(start as int))
                &&& dec_digits_value(s@.skip(start as int)) <= bound
            }),
        },
{
    let ghost body = s@.skip(start as int);
    if s.len() == start {
        return None;
    }
    let mut acc: u64 = 0;
    let mut i: usize = start;
    while i < s.len()
        invariant
            start <= i <= s@.len(),
            body == s@.skip(start as int),
            s@.len() > start,
            is_dec_digits(body.take(i - start)),
            acc == dec_digits_value(body.take(i - start)),
            acc <= bound,
        decreases s@.len() - i,
    {
        let c = s[i];
        let ghost k = i - start;
        proof {
            assert(body.take(k + 1).drop_last() =~= body.take(k));
            assert(body.take(k + 1).last() == body[k] == s@[i as int]);
        }
        if !(48 <= c && c <= 57) {
            proof {
                assert(!is_dec_digit(body[k]));
            }
            return None;
        }
        let d: u64 = (c - 48) as u64;
        if bound < d || acc > (bound - d) / 10 {
            proof {
                assert(acc * 10 + d > bound) by {
                    if bound >= d {
                        assert(acc >= (bound - d) / 10 + 1);
                        assert(((bound - d) / 10 + 1) * 10 == ((bound - d) / 10) * 10 + 10);
                        assert(((bound - d) / 10) * 10 + 10 > bound - d);
                    }
                }
                assert(dec_digits_value(body.take(k + 1)) > bound);
                lemma_dec_value_monotone(body, k + 1);
            }
            return None;
        }
        proof {
            assert(acc * 10 + d <= bound) by {
                assert(acc * 10 <= ((bound - d) / 10) * 10);
                assert(((bound - d) / 10) * 10 <= bound - d);
            }
        }
        acc = acc * 10 + d;
        i = i + 1;
    }
    proof {
        assert(body.take(s@.len() - start) =~= body);
    }
    Some(acc)
}

/// The satellite-id field read as an unsigned 16-bit decimal integer: an
/// optional leading `+`, then at least one digit, value at most `u16::MAX`.
pub open spec fn spec_parse_u16(s: Seq<u8>) -> Option<u16> {
    let body = if s.len() > 0 && s[0] == 43 {
        s.skip(1)
    } else {
        s
    };
    if body.len() > 0 && is_dec_digits(body) && dec_digits_value(body) <= u16::MAX {
        Some(dec_digits_value(body) as u16)
    } else {
        None
    }
}

/// Parses an unsigned 16-bit decimal integer, as [`spec_parse_u16`] states.
pub fn parse_u16(s: &[u8]) -> (r: Option<u16>)
    ensures
        r == spec_parse_u16(s@),
{
    let start: usize = if s.len() > 0 && s[0] == 43 {
        1
    } else {
        0
    };
    proof {
        if start == 0 {
            assert(s@.skip(0) =~= s@);
        }
    }
    match parse_digits(s, start, 65535) {
        Some(v) => Some(v as u16),
        None => None,
    }
}

/// The declared-length field read as a signed 32-bit decimal integer: an
/// optional leading `+` or `-`, then at least one digit, value within the
/// 32-bit signed range.
pub open spec fn spec_parse_i32(s: Seq<u8>) -> Option<i32> {
    if s.len() > 0 && s[0] == 45 {
        let body = s.skip(1);
        if body.len() > 0 && is_dec_digits(body) && dec_digits_value(body) <= 2147483648 {
            Some((-(dec_digits_value(body) as int)) as i32)
        } else {
            None
        }
    } else {
        let body = if s.len() > 0 && s[0] == 43 {
            s.skip(1)
        } else {
            s
        };
        if body.len() > 0 && is_dec_digits(body) && dec_digits_value(body) <= i32::MAX {
            Some(dec_digits_value(body) as i32)
        } else {
            None
        }
    }
}

/// Parses a signed 32-bit decimal integer, as [`spec_parse_i32`] states.
pub fn parse_i32(s: &[u8]) -> (r: Option<i32>)
    ensures
        r == spec_parse_i32(s@),
{
    if s.len() > 0 && s[0] == 45 {
        match parse_digits(s, 1, 2147483648) {
            Some(v) => Some((-(v as i64)) as i32),
            None => None,
        }
    } else {
        let start: usize = if s.len() > 0 && s[0] == 43 {
            1
        } else {
            0
        };
        proof {
            if start == 0 {
                assert(s@.skip(0) =~= s@);
            }
        }
        match parse_digits(s, start, 2147483647) {
            Some(v) => Some(v as i32),
            None => None,
        }
    }
}

/// The XOR fold of every byte of `s`: the sentence checksum.
pub open spec fn xor_fold(s: Seq<u8>) -> u8
    decreases s.len(),
{
    if s.len() == 0 {
        0
    } else {
        xor_fold(s.drop_last()) ^ s.last()
    }
}

/// Folds the bytes of `chars` with XOR and compares the result with the
/// transmitted checksum byte `sum`: `Ok(sum)` exactly when they agree.
pub fn check_checksum(chars: &[u8], sum: u8) -> (r: Result<u8, NavError>)
    ensures
        r == if xor_fold(chars@) == sum {
            Ok::<u8, NavError>(sum)
        } else {
            Err::<u8, NavError>(NavError::ChecksumMismatch)
        },
{
    let mut checksum: u8 = 0;
    let mut i: usize = 0;
    while i < chars.len()
        invariant
            i <= chars@.len(),
            checksum == xor_fold(chars@.take(i as int)),
        decreases chars@.len() - i,
    {
        proof {
            assert(chars@.take(i + 1).drop_last() =~= chars@.take(i as int));
            assert(chars@.take(i + 1).last() == chars@[i as int]);
        }
        checksum = checksum ^ chars[i];
        i = i + 1;
    }
    proof {
        assert(chars@.take(chars@.len() as int) =~= chars@);
    }
    if checksum == sum {
        Ok(sum)
    } else {
        Err(NavError::ChecksumMismatch)
    }
}

} // verus!
