//! Validation of the `{id}` path parameter: the segment must be the decimal
//! text of a 32-bit integer, an optional sign followed by digits, with the
//! value in range. Anything else is a validation failure, raised before any
//! storage is touched.

use vstd::prelude::*;

use crate::errors::UserError;

verus! {

/// An ASCII decimal digit.
pub open spec fn is_digit(b: u8) -> bool {
    48 <= b <= 57
}

/// The numeric value of one ASCII digit.
pub open spec fn digit_val(b: u8) -> int {
    b - 48
}

/// Every byte of `s` is an ASCII digit.
pub open spec fn all_digits(s: Seq<u8>) -> bool {
    forall|i: int| 0 <= i < s.len() ==> is_digit(#[trigger] s[i])
}

/// The value of a run of ASCII digits read in base ten.
pub open spec fn digits_value(s: Seq<u8>) -> int
    decreases s.len(),
{
    if s.len() == 0 {
        0
    } else {
        digits_value(s.drop_last()) * 10 + digit_val(s.last())
    }
}

/// The segment opens with an explicit `+` or `-` sign.
pub open spec fn has_sign(s: Seq<u8>) -> bool {
    s.len() > 0 && (s[0] == 43 || s[0] == 45)
}

/// The segment denotes a negative number.
pub open spec fn is_negative(s: Seq<u8>) -> bool {
    s.len() > 0 && s[0] == 45
}

/// The digit run of the segment: what follows the sign, if any.
pub open spec fn digits_of(s: Seq<u8>) -> Seq<u8> {
    if has_sign(s) {
        s.drop_first()
    } else {
        s
    }
}

/// The segment is the decimal text of an integer: an optional sign, then one
/// or more ASCII digits and nothing else.
pub open spec fn is_int_literal(s: Seq<u8>) -> bool {
    digits_of(s).len() > 0 && all_digits(digits_of(s))
}

/// The integer that a well-formed segment denotes.
pub open spec fn int_literal_value(s: Seq<u8>) -> int {
    if is_negative(s) {
        -digits_value(digits_of(s))
    } else {
        digits_value(digits_of(s))
    }
}

/// The segment denotes an integer that fits in 32 bits.
pub open spec fn is_i32_literal(s: Seq<u8>) -> bool {
    is_int_literal(s) && i32::MIN <= int_literal_value(s) <= i32::MAX
}

/// A run of digits has a non-negative value.
proof fn lemma_digits_value_nonneg(s: Seq<u8>)
    requires
        all_digits(s),
    ensures
        digits_value(s) >= 0,
    decreases s.len(),
{
    if s.len() > 0 {
        assert(all_digits(s.drop_last()));
        lemma_digits_value_nonneg(s.drop_last());
    }
}

/// Extending a run of digits never lowers its value: a prefix already over a
/// bound puts the whole run over it.
proof fn lemma_digits_value_prefix_le(s: Seq<u8>, k: int)
    requires
        all_digits(s),
        0 <= k <= s.len(),
    ensures
        digits_value(s.subrange(0, k)) <= digits_value(s),
    decreases s.len() - k,
{
    assert(all_digits(s.subrange(0, k)));
    lemma_digits_value_nonneg(s.subrange(0, k));
    if k < s.len() {
        assert(s.subrange(0, k + 1).drop_last() =~= s.subrange(0, k));
        assert(s.subrange(0, k + 1).last() == s[k]);
        lemma_digits_value_prefix_le(s, k + 1);
    } else {
        assert(s.subrange(0, k) =~= s);
    }
}

/// Parse the `{id}` path segment. Returns the denoted integer exactly when
/// the segment is well-formed decimal text whose value fits in `i32`;
/// everything else is a `ValidationError`.
pub fn parse_book_id(seg: &[u8]) -> (r: Result<i32, UserError>)
    ensures
        r is Ok <==> is_i32_literal(seg@),
        r is Ok ==> r->Ok_0 == int_literal_value(seg@),
        r is Err ==> r->Err_0 == UserError::ValidationError,
{
    let n = seg.len();
    if n == 0 {
        return Err(UserError::ValidationError);
    }
    let mut start: usize = 0;
    let mut neg = false;
    if seg[0] == 43 || seg[0] == 45 {
        neg = seg[0] == 45;
        start = 1;
    }
    if start == n {
        return Err(UserError::ValidationError);
    }
    let ghost ds: Seq<u8> = digits_of(seg@);
    assert(ds.len() == n - start);
    assert(forall|j: int| 0 <= j < ds.len() ==> ds[j] == seg@[j + start]);
    let mut i: usize = start;
    let mut acc: i64 = 0;
    while i < n
        invariant
            start <= i <= n,
            n == seg@.len(),
            start == if has_sign(seg@) { 1int } else { 0int },
            ds == digits_of(seg@),
            ds.len() == n - start,
            forall|j: int| 0 <= j < ds.len() ==> ds[j] == seg@[j + start],
            all_digits(ds.subrange(0, i - start)),
            acc == digits_value(ds.subrange(0, i - start)),
            0 <= acc <= 0x8000_0000,
            neg == is_negative(seg@),
        decreases n - i,
    {
        let b = seg[i];
        if !(48 <= b && b <= 57) {
            assert(!is_digit(ds[i - start]));
            return Err(UserError::ValidationError);
        }
        proof {
            assert(ds.subrange(0, i + 1 - start).drop_last() =~= ds.subrange(0, i - start));
            assert(ds.subrange(0, i + 1 - start).last() == ds[i - start]);
        }
        acc = acc * 10 + ((b - 48) as i64);
        if acc > 0x8000_0000 {
            proof {
                if all_digits(ds) {
                    lemma_digits_value_prefix_le(ds, i + 1 - start);
                }
            }
            return Err(UserError::ValidationError);
        }
        i = i + 1;
    }
    proof {
        assert(ds.subrange(0, n - start) =~= ds);
    }
    if neg {
        Ok((-acc) as i32)
    } else {
        if acc > 0x7fff_ffff {
            return Err(UserError::ValidationError);
        }
        Ok(acc as i32)
    }
}

} // verus!
