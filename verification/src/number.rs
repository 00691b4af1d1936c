//! Numbers in the modem's text: signed integers and decimal numbers.

use vstd::prelude::*;
use vstd::slice::*;

verus! {

/// The byte is one of `0`-`9`.
pub open spec fn is_digit(b: u8) -> bool {
    0x30 <= b <= 0x39
}

/// The byte is `+` or `-`.
pub open spec fn is_sign(b: u8) -> bool {
    b == 0x2b || b == 0x2d
}

/// Every byte is a decimal digit.
pub open spec fn all_digits(text: Seq<u8>) -> bool {
    forall|i: int| 0 <= i < text.len() ==> is_digit(#[trigger] text[i])
}

/// The number that a string of decimal digits stands for.
pub open spec fn decimal_value(digits: Seq<u8>) -> int
    decreases digits.len(),
{
    if digits.len() == 0 {
        0
    } else {
        10 * decimal_value(digits.drop_last()) + (digits.last() - 0x30)
    }
}

/// The integer that `text` stands for: an optional sign, then one digit or
/// more, and nothing else.
pub open spec fn integer(text: Seq<u8>) -> Option<int> {
    if text.len() > 0 && is_sign(text[0]) {
        let digits = text.subrange(1, text.len() as int);
        if digits.len() > 0 && all_digits(digits) {
            if text[0] == 0x2d {
                Some(-decimal_value(digits))
            } else {
                Some(decimal_value(digits))
            }
        } else {
            None
        }
    } else if text.len() > 0 && all_digits(text) {
        Some(decimal_value(text))
    } else {
        None
    }
}

/// The integer that `text` stands for, where it is one that an `isize` holds.
pub open spec fn integer_in_isize(text: Seq<u8>) -> Option<isize> {
    match integer(text) {
        Some(v) => if isize::MIN <= v <= isize::MAX {
            Some(v as isize)
        } else {
            None
        },
        None => None,
    }
}

/// More digits do not make a smaller number.
pub proof fn lemma_decimal_value_grows(digits: Seq<u8>, k: int)
    requires
        all_digits(digits),
        0 <= k <= digits.len(),
    ensures
        0 <= decimal_value(digits.subrange(0, k)) <= decimal_value(digits),
    decreases digits.len() - k,
{
    if k == digits.len() {
        assert(digits.subrange(0, k) =~= digits);
        lemma_decimal_value_nonnegative(digits);
    } else {
        let shorter = digits.drop_last();
        assert(shorter.subrange(0, k) =~= digits.subrange(0, k));
        assert(all_digits(shorter)) by {
            assert forall|i: int| 0 <= i < shorter.len() implies is_digit(#[trigger] shorter[i]) by {
                assert(shorter[i] == digits[i]);
            }
        }
        lemma_decimal_value_grows(shorter, k);
        assert(is_digit(digits[digits.len() - 1]));
    }
}

/// A string of digits stands for no negative number.
pub proof fn lemma_decimal_value_nonnegative(digits: Seq<u8>)
    requires
        all_digits(digits),
    ensures
        0 <= decimal_value(digits),
    decreases digits.len(),
{
    if digits.len() > 0 {
        let shorter = digits.drop_last();
        assert(all_digits(shorter)) by {
            assert forall|i: int| 0 <= i < shorter.len() implies is_digit(#[trigger] shorter[i]) by {
                assert(shorter[i] == digits[i]);
            }
        }
        lemma_decimal_value_nonnegative(shorter);
        assert(is_digit(digits[digits.len() - 1]));
    }
}

/// Reads a signed integer: an optional `+` or `-`, then decimal digits.
/// Anything else, and a number that an `isize` cannot hold, gives `None`.
pub fn parse_isize(text: &[u8]) -> (r: Option<isize>)
    ensures
        r == integer_in_isize(text@),
{
    if text.len() == 0 {
        return None;
    }
    let signed: bool = text[0] == 0x2b || text[0] == 0x2d;
    let negative: bool = text[0] == 0x2d;
    let first: usize = if signed {
        1
    } else {
        0
    };
    if first == text.len() {
        assert(text@.subrange(1, text@.len() as int).len() == 0);
        return None;
    }
    let ghost digits = text@.subrange(first as int, text@.len() as int);
    assert(!signed ==> digits =~= text@);
    let mut acc: isize = 0;
    let mut k: usize = first;
    while k < text.len()
        invariant
            first <= k <= text@.len(),
            text@.len() > 0,
            signed == is_sign(text@[0]),
            negative == (text@[0] == 0x2d),
            first == if signed { 1usize } else { 0usize },
            digits == text@.subrange(first as int, text@.len() as int),
            !signed ==> digits == text@,
            all_digits(digits.subrange(0, k - first)),
            negative ==> acc == -decimal_value(digits.subrange(0, k - first)),
            !negative ==> acc == decimal_value(digits.subrange(0, k - first)),
        decreases text@.len() - k,
    {
        let b: u8 = text[k];
        let ghost seen = digits.subrange(0, k - first);
        let ghost more = digits.subrange(0, k - first + 1);
        assert(digits[k - first] == b);
        if b < 0x30 || b > 0x39 {
            assert(!is_digit(digits[k - first]));
            return None;
        }
        assert(more.drop_last() =~= seen);
        assert(more.last() == b);
        assert(all_digits(more)) by {
            assert forall|i: int| 0 <= i < more.len() implies is_digit(#[trigger] more[i]) by {
                if i < seen.len() {
                    assert(seen[i] == more[i]);
                }
            }
        }
        let d: isize = (b - 0x30) as isize;
        let next = match acc.checked_mul(10) {
            None => None,
            Some(tens) => if negative {
                tens.checked_sub(d)
            } else {
                tens.checked_add(d)
            },
        };
        match next {
            Some(v) => {
                acc = v;
            },
            None => {
                proof {
                    // The digits read so far already stand for a number out of
                    // range, and the digits behind them cannot bring it back.
                    if all_digits(digits) {
                        lemma_decimal_value_grows(digits, k - first + 1);
                        lemma_decimal_value_nonnegative(seen);
                    }
                }
                return None;
            },
        }
        k += 1;
    }
    assert(digits.subrange(0, k - first) =~= digits);
    Some(acc)
}

/// The offset behind the run of digits that begins in `text` at `from`.
pub open spec fn digits_end(text: Seq<u8>, from: int) -> int
    decreases text.len() - from,
{
    if 0 <= from < text.len() && is_digit(text[from]) {
        digits_end(text, from + 1)
    } else {
        from
    }
}

/// The lower-case form of an ASCII byte.
pub open spec fn lower(b: u8) -> u8 {
    if 0x41 <= b <= 0x5a {
        (b + 0x20) as u8
    } else {
        b
    }
}

/// `text` is `word` but for the case of its letters; `word` is in lower case.
pub open spec fn is_word(text: Seq<u8>, word: Seq<u8>) -> bool {
    &&& text.len() == word.len()
    &&& forall|i: int| 0 <= i < text.len() ==> lower(#[trigger] text[i]) == word[i]
}

/// `inf`, in ASCII.
pub open spec fn word_inf() -> Seq<u8> {
    seq![0x69u8, 0x6e, 0x66]
}

/// `infinity`, in ASCII.
pub open spec fn word_infinity() -> Seq<u8> {
    seq![0x69u8, 0x6e, 0x66, 0x69, 0x6e, 0x69, 0x74, 0x79]
}

/// `nan`, in ASCII.
pub open spec fn word_nan() -> Seq<u8> {
    seq![0x6eu8, 0x61, 0x6e]
}

/// `tail` is an exponent: `e` or `E`, an optional sign, then one digit or more.
pub open spec fn is_exponent(tail: Seq<u8>) -> bool {
    &&& tail.len() >= 2
    &&& lower(tail[0]) == 0x65
    &&& {
        let digits = if is_sign(tail[1]) {
            tail.subrange(2, tail.len() as int)
        } else {
            tail.subrange(1, tail.len() as int)
        };
        digits.len() >= 1 && all_digits(digits)
    }
}

/// `body` is digits with at most one `.` among them, before it, or behind
/// it, with one digit at least, and then an exponent or nothing.
pub open spec fn is_decimal(body: Seq<u8>) -> bool {
    let whole = digits_end(body, 0);
    let dotted = whole < body.len() && body[whole] == 0x2e;
    let end = if dotted {
        digits_end(body, whole + 1)
    } else {
        whole
    };
    let digits = if dotted {
        end - 1
    } else {
        whole
    };
    &&& digits >= 1
    &&& (end == body.len() || is_exponent(body.subrange(end, body.len() as int)))
}

/// `text` is a number as Rust's floating-point types read one from a
/// string: an optional sign, then `inf`, `infinity` or `nan` in any case, or
/// a decimal number with an optional exponent.
pub open spec fn is_number(text: Seq<u8>) -> bool {
    let body = if text.len() > 0 && is_sign(text[0]) {
        text.subrange(1, text.len() as int)
    } else {
        text
    };
    is_word(body, word_inf()) || is_word(body, word_infinity()) || is_word(body, word_nan())
        || is_decimal(body)
}

/// A run of digits ends within the text, holds digits only, and no digit
/// stands behind it.
pub proof fn lemma_digits_end(text: Seq<u8>, from: int)
    requires
        0 <= from <= text.len(),
    ensures
        from <= digits_end(text, from) <= text.len(),
        forall|i: int| from <= i < digits_end(text, from) ==> is_digit(#[trigger] text[i]),
        digits_end(text, from) < text.len() ==> !is_digit(text[digits_end(text, from)]),
    decreases text.len() - from,
{
    if from < text.len() && is_digit(text[from]) {
        lemma_digits_end(text, from + 1);
    }
}

/// A number is made of ASCII bytes.
pub proof fn lemma_number_is_ascii(text: Seq<u8>)
    requires
        is_number(text),
    ensures
        forall|i: int| 0 <= i < text.len() ==> #[trigger] text[i] <= 0x7f,
{
    let body = if text.len() > 0 && is_sign(text[0]) {
        text.subrange(1, text.len() as int)
    } else {
        text
    };
    let shift: int = text.len() - body.len();
    assert forall|j: int| 0 <= j < body.len() implies #[trigger] body[j] <= 0x7f by {
        if is_word(body, word_inf()) {
            assert(lower(body[j]) == word_inf()[j]);
        } else if is_word(body, word_infinity()) {
            assert(lower(body[j]) == word_infinity()[j]);
        } else if is_word(body, word_nan()) {
            assert(lower(body[j]) == word_nan()[j]);
        } else {
            let whole = digits_end(body, 0);
            lemma_digits_end(body, 0);
            let dotted = whole < body.len() && body[whole] == 0x2e;
            if dotted {
                lemma_digits_end(body, whole + 1);
            }
            let end = if dotted {
                digits_end(body, whole + 1)
            } else {
                whole
            };
            if j < whole {
                assert(is_digit(body[j]));
            } else if j < end {
                if j > whole {
                    assert(is_digit(body[j]));
                }
            } else {
                let tail = body.subrange(end, body.len() as int);
                assert(tail[j - end] == body[j]);
                if j - end >= 1 {
                    if is_sign(tail[1]) {
                        let digits = tail.subrange(2, tail.len() as int);
                        if j - end >= 2 {
                            assert(is_digit(digits[j - end - 2]));
                        }
                    } else {
                        let digits = tail.subrange(1, tail.len() as int);
                        assert(is_digit(digits[j - end - 1]));
                    }
                }
            }
        }
    }
    assert forall|i: int| 0 <= i < text.len() implies #[trigger] text[i] <= 0x7f by {
        if i >= shift {
            assert(body[i - shift] == text[i]);
        }
    }
}

/// The offset behind the run of digits that begins in `text` at `from`.
pub fn skip_digits(text: &[u8], from: usize) -> (r: usize)
    requires
        from <= text@.len(),
    ensures
        r == digits_end(text@, from as int),
        from <= r <= text@.len(),
{
    let mut k: usize = from;
    while k < text.len() && 0x30 <= text[k] && text[k] <= 0x39
        invariant
            from <= k <= text@.len(),
            digits_end(text@, k as int) == digits_end(text@, from as int),
        decreases text@.len() - k,
    {
        k += 1;
    }
    k
}

/// Tells whether `text` is `word` but for the case of its letters.
fn spells(text: &[u8], word: &[u8]) -> (r: bool)
    ensures
        r == is_word(text@, word@),
{
    if text.len() != word.len() {
        return false;
    }
    let mut k: usize = 0;
    while k < text.len()
        invariant
            k <= text@.len(),
            text@.len() == word@.len(),
            forall|i: int| 0 <= i < k ==> lower(#[trigger] text@[i]) == word@[i],
        decreases text@.len() - k,
    {
        let b: u8 = text[k];
        let low: u8 = if 0x41 <= b && b <= 0x5a {
            b + 0x20
        } else {
            b
        };
        if low != word[k] {
            return false;
        }
        k += 1;
    }
    true
}

/// Tells whether `tail` is an exponent.
fn exponent(tail: &[u8]) -> (r: bool)
    ensures
        r == is_exponent(tail@),
{
    if tail.len() < 2 || !(tail[0] == 0x65 || tail[0] == 0x45) {
        return false;
    }
    let first: usize = if tail[1] == 0x2b || tail[1] == 0x2d {
        2
    } else {
        1
    };
    let digits = slice_subrange(tail, first, tail.len());
    let end = skip_digits(digits, 0);
    proof {
        lemma_digits_end(digits@, 0);
    }
    digits.len() >= 1 && end == digits.len()
}

/// Tells whether `body` is a decimal number without a sign.
fn decimal(body: &[u8]) -> (r: bool)
    ensures
        r == is_decimal(body@),
{
    let whole = skip_digits(body, 0);
    let dotted: bool = whole < body.len() && body[whole] == 0x2e;
    let end: usize = if dotted {
        skip_digits(body, whole + 1)
    } else {
        whole
    };
    let digits: usize = if dotted {
        end - 1
    } else {
        whole
    };
    if digits < 1 {
        return false;
    }
    if end == body.len() {
        return true;
    }
    exponent(slice_subrange(body, end, body.len()))
}

/// Tells whether `text` is a number: an optional sign, then `inf`,
/// `infinity` or `nan` in any case, or digits with an optional `.` and an
/// optional exponent.
pub fn number(text: &[u8]) -> (r: bool)
    ensures
        r == is_number(text@),
{
    let body = if text.len() > 0 && (text[0] == 0x2b || text[0] == 0x2d) {
        slice_subrange(text, 1, text.len())
    } else {
        text
    };
    let inf: [u8; 3] = [0x69, 0x6e, 0x66];
    let infinity: [u8; 8] = [0x69, 0x6e, 0x66, 0x69, 0x6e, 0x69, 0x74, 0x79];
    let nan: [u8; 3] = [0x6e, 0x61, 0x6e];
    assert(inf@ =~= word_inf());
    assert(infinity@ =~= word_infinity());
    assert(nan@ =~= word_nan());
    spells(body, inf.as_slice()) || spells(body, infinity.as_slice()) || spells(body, nan.as_slice())
        || decimal(body)
}

} // verus!
