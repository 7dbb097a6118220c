//! The syntax of floating-point literals, as the standard library documents
//! it for its numeric parser: an optional sign, then either one of the
//! special words `inf`, `infinity`, `nan` (in any letter case) or a digit
//! string with at most one dot and an optional exponent part. A magnitude
//! string converts to a number exactly when it conforms to this grammar.

use vstd::prelude::*;
use vstd::string::StrSliceExecFns;

verus! {

pub open spec fn is_digit_char(c: char) -> bool {
    '0' <= c && c <= '9'
}

pub open spec fn is_sign_char(c: char) -> bool {
    c == '+' || c == '-'
}

/// ASCII lowercasing, written out for the letters the grammar mentions
/// (every other character stands for itself, and can match no grammar
/// letter in either case).
pub open spec fn lower_letter(c: char) -> char {
    if c == 'I' {
        'i'
    } else if c == 'N' {
        'n'
    } else if c == 'F' {
        'f'
    } else if c == 'A' {
        'a'
    } else if c == 'T' {
        't'
    } else if c == 'Y' {
        'y'
    } else if c == 'E' {
        'e'
    } else {
        c
    }
}

/// A digit string: one or more decimal digits.
pub open spec fn is_count(s: Seq<char>) -> bool {
    s.len() >= 1 && (forall|i: int| 0 <= i < s.len() ==> is_digit_char(s[i]))
}

/// A digit string with an optional single leading sign.
pub open spec fn is_signed_count(s: Seq<char>) -> bool {
    if s.len() >= 1 && is_sign_char(s[0]) {
        is_count(s.skip(1))
    } else {
        is_count(s)
    }
}

/// An exponent part: `e` or `E`, then an optionally signed digit string.
pub open spec fn is_exponent(s: Seq<char>) -> bool {
    s.len() >= 1 && lower_letter(s[0]) == 'e' && is_signed_count(s.skip(1))
}

/// A mantissa: digits with at most one dot among them, at least one digit or
/// a dot beside a digit — that is, `digits`, `digits.`, `.digits` or
/// `digits.digits`, and never a lone dot.
pub open spec fn is_mantissa(s: Seq<char>) -> bool {
    &&& s.len() >= 1
    &&& (forall|i: int| 0 <= i < s.len() ==> is_digit_char(s[i]) || s[i] == '.')
    &&& (forall|i: int, j: int|
        0 <= i < s.len() && 0 <= j < s.len() && s[i] == '.' && s[j] == '.' ==> i == j)
    &&& !(s.len() == 1 && s[0] == '.')
}

/// A number: a mantissa followed by an optional exponent part.
pub open spec fn is_number(s: Seq<char>) -> bool {
    exists|k: int|
        0 <= k <= s.len() && is_mantissa(#[trigger] s.take(k)) && (k == s.len() || is_exponent(
            s.skip(k),
        ))
}

/// The word `inf`, in any letter case.
pub open spec fn is_inf(s: Seq<char>) -> bool {
    &&& s.len() == 3
    &&& lower_letter(s[0]) == 'i'
    &&& lower_letter(s[1]) == 'n'
    &&& lower_letter(s[2]) == 'f'
}

/// The word `infinity`, in any letter case.
pub open spec fn is_infinity(s: Seq<char>) -> bool {
    &&& s.len() == 8
    &&& lower_letter(s[0]) == 'i'
    &&& lower_letter(s[1]) == 'n'
    &&& lower_letter(s[2]) == 'f'
    &&& lower_letter(s[3]) == 'i'
    &&& lower_letter(s[4]) == 'n'
    &&& lower_letter(s[5]) == 'i'
    &&& lower_letter(s[6]) == 't'
    &&& lower_letter(s[7]) == 'y'
}

/// The word `nan`, in any letter case.
pub open spec fn is_nan(s: Seq<char>) -> bool {
    &&& s.len() == 3
    &&& lower_letter(s[0]) == 'n'
    &&& lower_letter(s[1]) == 'a'
    &&& lower_letter(s[2]) == 'n'
}

/// What may follow the optional sign: a special word or a number.
pub open spec fn is_float_body(s: Seq<char>) -> bool {
    is_inf(s) || is_infinity(s) || is_nan(s) || is_number(s)
}

/// A floating-point literal: an optional sign, then a special word or a
/// number. Neither a special word nor a number begins with a sign, so
/// stripping one leading sign loses nothing.
pub open spec fn is_float_literal(s: Seq<char>) -> bool {
    if s.len() >= 1 && is_sign_char(s[0]) {
        is_float_body(s.skip(1))
    } else {
        is_float_body(s)
    }
}

/// A floating-point literal is never empty, and its first character is a
/// sign, a digit, a dot, or the first letter of a special word.
pub proof fn lemma_float_literal_head(f: Seq<char>)
    requires
        is_float_literal(f),
    ensures
        f.len() >= 1,
        is_sign_char(f[0]) || is_digit_char(f[0]) || f[0] == '.' || lower_letter(f[0]) == 'i'
            || lower_letter(f[0]) == 'n',
{
    if f.len() >= 1 && is_sign_char(f[0]) {
    } else {
        assert(is_float_body(f));
        if is_inf(f) || is_infinity(f) || is_nan(f) {
        } else {
            let kk = choose|kk: int|
                0 <= kk <= f.len() && is_mantissa(#[trigger] f.take(kk)) && (kk == f.len()
                    || is_exponent(f.skip(kk)));
            assert(f.take(kk).len() >= 1);
            assert(f.take(kk)[0] == f[0]);
            assert(is_digit_char(f[0]) || f[0] == '.');
        }
    }
}

fn lower_letter_exec(c: char) -> (r: char)
    ensures
        r == lower_letter(c),
{
    if c == 'I' {
        'i'
    } else if c == 'N' {
        'n'
    } else if c == 'F' {
        'f'
    } else if c == 'A' {
        'a'
    } else if c == 'T' {
        't'
    } else if c == 'Y' {
        'y'
    } else if c == 'E' {
        'e'
    } else {
        c
    }
}

fn check_count(s: &str, from: usize, to: usize) -> (r: bool)
    requires
        from <= to <= s@.len(),
    ensures
        r == is_count(s@.subrange(from as int, to as int)),
{
    let ghost sub = s@.subrange(from as int, to as int);
    if to == from {
        return false;
    }
    let mut j = from;
    while j < to
        invariant
            from <= j <= to <= s@.len(),
            forall|i: int| 0 <= i < j - from ==> is_digit_char(sub[i]),
            sub == s@.subrange(from as int, to as int),
        decreases to - j,
    {
        let c = s.get_char(j);
        if !('0' <= c && c <= '9') {
            assert(sub[j - from] == c);
            return false;
        }
        j = j + 1;
    }
    true
}

fn check_signed_count(s: &str, from: usize, to: usize) -> (r: bool)
    requires
        from <= to <= s@.len(),
    ensures
        r == is_signed_count(s@.subrange(from as int, to as int)),
{
    let ghost sub = s@.subrange(from as int, to as int);
    if from < to {
        let c = s.get_char(from);
        if c == '+' || c == '-' {
            assert(sub[0] == c);
            let r = check_count(s, from + 1, to);
            assert(sub.skip(1) =~= s@.subrange(from + 1, to as int));
            return r;
        }
        assert(!is_sign_char(sub[0]));
    }
    check_count(s, from, to)
}

fn check_exponent(s: &str, from: usize, to: usize) -> (r: bool)
    requires
        from <= to <= s@.len(),
    ensures
        r == is_exponent(s@.subrange(from as int, to as int)),
{
    let ghost sub = s@.subrange(from as int, to as int);
    if from == to {
        return false;
    }
    let c = s.get_char(from);
    assert(sub[0] == c);
    if lower_letter_exec(c) == 'e' {
        let r = check_signed_count(s, from + 1, to);
        assert(sub.skip(1) =~= s@.subrange(from + 1, to as int));
        r
    } else {
        false
    }
}

fn check_mantissa(s: &str, from: usize, to: usize) -> (r: bool)
    requires
        from <= to <= s@.len(),
    ensures
        r == is_mantissa(s@.subrange(from as int, to as int)),
{
    let ghost sub = s@.subrange(from as int, to as int);
    if to == from {
        return false;
    }
    let mut j = from;
    let mut dot: Option<usize> = None;
    while j < to
        invariant
            from <= j <= to <= s@.len(),
            sub == s@.subrange(from as int, to as int),
            forall|i: int| 0 <= i < j - from ==> is_digit_char(sub[i]) || sub[i] == '.',
            match dot {
                None => forall|i: int| 0 <= i < j - from ==> sub[i] != '.',
                Some(d) => from <= d < j && sub[d - from] == '.' && (forall|i: int|
                    0 <= i < j - from && i != d - from ==> is_digit_char(sub[i])),
            },
        decreases to - j,
    {
        let c = s.get_char(j);
        assert(sub[j - from] == c);
        if '0' <= c && c <= '9' {
        } else if c == '.' {
            if dot.is_some() {
                return false;
            }
            dot = Some(j);
        } else {
            return false;
        }
        j = j + 1;
    }
    if to - from == 1 && dot.is_some() {
        return false;
    }
    true
}

fn check_number(s: &str, from: usize, to: usize) -> (r: bool)
    requires
        from <= to <= s@.len(),
    ensures
        r == is_number(s@.subrange(from as int, to as int)),
{
    let ghost sub = s@.subrange(from as int, to as int);
    // Find the first exponent marker: the split between mantissa and
    // exponent part is wherever it stands, since a mantissa holds no
    // letters.
    let mut k = from;
    while k < to && lower_letter_exec(s.get_char(k)) != 'e'
        invariant
            from <= k <= to <= s@.len(),
            sub == s@.subrange(from as int, to as int),
            forall|i: int| 0 <= i < k - from ==> lower_letter(sub[i]) != 'e',
        decreases to - k,
    {
        assert(sub[k - from] == s@[k as int]);
        k = k + 1;
    }
    assert(k < to ==> lower_letter(sub[k - from]) == 'e');
    let mant_ok = check_mantissa(s, from, k);
    assert(sub.take(k - from) =~= s@.subrange(from as int, k as int));
    let exp_ok = if k == to {
        true
    } else {
        let r = check_exponent(s, k, to);
        assert(sub.skip(k - from) =~= s@.subrange(k as int, to as int));
        r
    };
    let r = mant_ok && exp_ok;
    proof {
        let kk0 = k - from;
        if r {
            // The found split is a witness.
            assert(0 <= kk0 <= sub.len() && is_mantissa(sub.take(kk0)) && (kk0 == sub.len()
                || is_exponent(sub.skip(kk0))));
        }
        if is_number(sub) {
            let kk = choose|kk: int|
                0 <= kk <= sub.len() && is_mantissa(#[trigger] sub.take(kk)) && (kk == sub.len()
                    || is_exponent(sub.skip(kk)));
            // No character of a mantissa lowers to `e`.
            assert forall|i: int| 0 <= i < kk implies lower_letter(#[trigger] sub[i]) != 'e' by {
                assert(is_digit_char(sub.take(kk)[i]) || sub.take(kk)[i] == '.');
                assert(sub.take(kk)[i] == sub[i]);
            }
            if kk == sub.len() {
                // No exponent marker anywhere, so the scan ran to the end.
                assert(kk0 == kk);
            } else {
                assert(lower_letter(sub[kk]) == 'e');
                assert(kk0 == kk);
            }
            assert(sub.take(kk) == sub.take(kk0));
            assert(mant_ok);
            assert(exp_ok);
        }
    }
    r
}

fn check_special(s: &str, from: usize, to: usize) -> (r: bool)
    requires
        from <= to <= s@.len(),
    ensures
        r == (is_inf(s@.subrange(from as int, to as int)) || is_infinity(
            s@.subrange(from as int, to as int),
        ) || is_nan(s@.subrange(from as int, to as int))),
{
    let ghost sub = s@.subrange(from as int, to as int);
    let len = to - from;
    if len == 3 {
        let c0 = lower_letter_exec(s.get_char(from));
        let c1 = lower_letter_exec(s.get_char(from + 1));
        let c2 = lower_letter_exec(s.get_char(from + 2));
        assert(sub[0] == s@[from as int] && sub[1] == s@[from + 1] && sub[2] == s@[from + 2]);
        (c0 == 'i' && c1 == 'n' && c2 == 'f') || (c0 == 'n' && c1 == 'a' && c2 == 'n')
    } else if len == 8 {
        let c0 = lower_letter_exec(s.get_char(from));
        let c1 = lower_letter_exec(s.get_char(from + 1));
        let c2 = lower_letter_exec(s.get_char(from + 2));
        let c3 = lower_letter_exec(s.get_char(from + 3));
        let c4 = lower_letter_exec(s.get_char(from + 4));
        let c5 = lower_letter_exec(s.get_char(from + 5));
        let c6 = lower_letter_exec(s.get_char(from + 6));
        let c7 = lower_letter_exec(s.get_char(from + 7));
        assert(sub[0] == s@[from as int] && sub[1] == s@[from + 1] && sub[2] == s@[from + 2]
            && sub[3] == s@[from + 3] && sub[4] == s@[from + 4] && sub[5] == s@[from + 5] && sub[6]
            == s@[from + 6] && sub[7] == s@[from + 7]);
        c0 == 'i' && c1 == 'n' && c2 == 'f' && c3 == 'i' && c4 == 'n' && c5 == 'i' && c6 == 't'
            && c7 == 'y'
    } else {
        false
    }
}

fn check_float_body(s: &str, from: usize, to: usize) -> (r: bool)
    requires
        from <= to <= s@.len(),
    ensures
        r == is_float_body(s@.subrange(from as int, to as int)),
{
    if check_special(s, from, to) {
        true
    } else {
        check_number(s, from, to)
    }
}

/// Whether the whole of `s` is a floating-point literal.
pub fn check_float_literal(s: &str) -> (r: bool)
    ensures
        r == is_float_literal(s@),
{
    let n = s.unicode_len();
    assert(s@.subrange(0, n as int) =~= s@);
    if n > 0 {
        let c = s.get_char(0);
        if c == '+' || c == '-' {
            let r = check_float_body(s, 1, n);
            assert(s@.skip(1) =~= s@.subrange(1, n as int));
            return r;
        }
    }
    check_float_body(s, 0, n)
}

} // verus!
