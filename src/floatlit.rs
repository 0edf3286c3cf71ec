//! Recognition of decimal floating-point literals, in the grammar that std
//! documents for parsing an `f64` from a string.
use vstd::prelude::*;

verus! {

pub open spec fn is_digit(c: char) -> bool {
    '0' <= c && c <= '9'
}

pub open spec fn is_sign(c: char) -> bool {
    c == '+' || c == '-'
}

pub open spec fn is_exp_mark(c: char) -> bool {
    c == 'e' || c == 'E'
}

/// `c` is the letter `lo` in either case (`up` is its capital).
pub open spec fn letter(c: char, lo: char, up: char) -> bool {
    c == lo || c == up
}

/// `inf`, `infinity` or `nan`, in any mix of cases.
pub open spec fn special_word(t: Seq<char>) -> bool {
    (t.len() == 3 && letter(t[0], 'i', 'I') && letter(t[1], 'n', 'N') && letter(t[2], 'f', 'F'))
        || (t.len() == 8 && letter(t[0], 'i', 'I') && letter(t[1], 'n', 'N') && letter(t[2], 'f', 'F')
        && letter(t[3], 'i', 'I') && letter(t[4], 'n', 'N') && letter(t[5], 'i', 'I')
        && letter(t[6], 't', 'T') && letter(t[7], 'y', 'Y'))
        || (t.len() == 3 && letter(t[0], 'n', 'N') && letter(t[1], 'a', 'A') && letter(t[2], 'n', 'N'))
}

/// Digits with at most one decimal point, and at least one digit.
pub open spec fn mantissa(m: Seq<char>) -> bool {
    &&& forall|i: int| 0 <= i < m.len() ==> is_digit(m[i]) || m[i] == '.'
    &&& forall|i: int, j: int| 0 <= i < j < m.len() ==> !(m[i] == '.' && m[j] == '.')
    &&& exists|i: int| 0 <= i < m.len() && is_digit(m[i])
}

pub open spec fn all_digits(y: Seq<char>) -> bool {
    forall|i: int| 0 <= i < y.len() ==> is_digit(y[i])
}

/// What follows the exponent mark and its optional sign.
pub open spec fn exp_digits(x: Seq<char>) -> Seq<char> {
    if is_sign(x[1]) {
        x.subrange(2, x.len() as int)
    } else {
        x.subrange(1, x.len() as int)
    }
}

/// An exponent mark, an optional sign and at least one digit.
pub open spec fn exponent(x: Seq<char>) -> bool {
    &&& x.len() >= 2
    &&& is_exp_mark(x[0])
    &&& exp_digits(x).len() > 0
    &&& all_digits(exp_digits(x))
}

/// A mantissa followed by an optional exponent.
pub open spec fn number(t: Seq<char>) -> bool {
    exists|k: int|
        0 <= k <= t.len() && mantissa(#[trigger] t.subrange(0, k)) && (k == t.len() || exponent(
            t.subrange(k, t.len() as int),
        ))
}

/// What std's `f64` parser accepts: an optional sign, then a special word or a number.
pub open spec fn float_literal(s: Seq<char>) -> bool {
    let t = if s.len() > 0 && is_sign(s[0]) { s.drop_first() } else { s };
    special_word(t) || number(t)
}

fn is_letter(c: char, lo: char, up: char) -> (r: bool)
    ensures
        r == letter(c, lo, up),
{
    c == lo || c == up
}

fn special(t: &Vec<char>, from: usize) -> (r: bool)
    requires
        from <= t@.len(),
    ensures
        r == special_word(t@.subrange(from as int, t@.len() as int)),
{
    let n = t.len() - from;
    if n == 3 {
        (is_letter(t[from], 'i', 'I') && is_letter(t[from + 1], 'n', 'N') && is_letter(t[from + 2], 'f', 'F'))
            || (is_letter(t[from], 'n', 'N') && is_letter(t[from + 1], 'a', 'A') && is_letter(t[from + 2], 'n', 'N'))
    } else if n == 8 {
        is_letter(t[from], 'i', 'I') && is_letter(t[from + 1], 'n', 'N') && is_letter(t[from + 2], 'f', 'F')
            && is_letter(t[from + 3], 'i', 'I') && is_letter(t[from + 4], 'n', 'N')
            && is_letter(t[from + 5], 'i', 'I') && is_letter(t[from + 6], 't', 'T')
            && is_letter(t[from + 7], 'y', 'Y')
    } else {
        false
    }
}

/// Whether `t[from..to]` is a mantissa.
fn check_mantissa(t: &Vec<char>, from: usize, to: usize) -> (r: bool)
    requires
        from <= to <= t@.len(),
    ensures
        r == mantissa(t@.subrange(from as int, to as int)),
{
    let ghost m = t@.subrange(from as int, to as int);
    let mut i: usize = from;
    let mut dots: usize = 0;
    let mut digits: bool = false;
    let ghost mut dot_at: int = -1;
    let ghost mut digit_at: int = -1;
    while i < to
        invariant
            from <= i <= to <= t@.len(),
            m == t@.subrange(from as int, to as int),
            dots <= 1,
            forall|j: int| 0 <= j < i - from ==> is_digit(m[j]) || m[j] == '.',
            dots == 0 ==> forall|j: int| 0 <= j < i - from ==> m[j] != '.',
            dots == 1 ==> 0 <= dot_at < i - from && m[dot_at] == '.' && forall|j: int|
                0 <= j < i - from && j != dot_at ==> m[j] != '.',
            digits <==> exists|j: int| 0 <= j < i - from && is_digit(m[j]),
            digits ==> 0 <= digit_at < i - from && is_digit(m[digit_at]),
        decreases to - i,
    {
        let c = t[i];
        assert(m[i - from] == c);
        if c == '.' {
            if dots == 1 {
                assert(!(m[dot_at] == '.' && m[i - from] == '.') == false);
                return false;
            }
            dots = 1;
            proof {
                dot_at = i - from;
            }
        } else if '0' <= c && c <= '9' {
            digits = true;
            proof {
                digit_at = i - from;
            }
        } else {
            return false;
        }
        i = i + 1;
    }
    if !digits {
        return false;
    }
    assert(is_digit(m[digit_at]));
    true
}

/// Whether `t[from..]` is an exponent.
fn check_exponent(t: &Vec<char>, from: usize) -> (r: bool)
    requires
        from <= t@.len(),
    ensures
        r == exponent(t@.subrange(from as int, t@.len() as int)),
{
    let ghost x = t@.subrange(from as int, t@.len() as int);
    let n = t.len();
    if n - from < 2 {
        return false;
    }
    assert(x[0] == t@[from as int] && x[1] == t@[from + 1]);
    if !(t[from] == 'e' || t[from] == 'E') {
        return false;
    }
    let start: usize = if t[from + 1] == '+' || t[from + 1] == '-' { from + 2 } else { from + 1 };
    let ghost y = exp_digits(x);
    assert(y =~= t@.subrange(start as int, n as int));
    if start >= n {
        assert(y.len() == 0);
        assert(!exponent(x));
        return false;
    }
    let mut i: usize = start;
    while i < n
        invariant
            start <= i <= n == t@.len(),
            y =~= t@.subrange(start as int, n as int),
            x == t@.subrange(from as int, n as int),
            x.len() >= 2,
            is_exp_mark(x[0]),
            y == exp_digits(x),
            forall|j: int| 0 <= j < i - start ==> is_digit(y[j]),
        decreases n - i,
    {
        if !('0' <= t[i] && t[i] <= '9') {
            assert(y[i - start] == t@[i as int]);
            assert(!is_digit(y[i - start]));

            return false;
        }
        i = i + 1;
    }
    true
}

/// Whether `s` is a literal that std's `f64` parser accepts.
pub fn is_float_literal(s: &Vec<char>) -> (r: bool)
    ensures
        r == float_literal(s@),
{
    let n = s.len();
    let from: usize = if n > 0 && (s[0] == '+' || s[0] == '-') { 1 } else { 0 };
    let ghost t = if s@.len() > 0 && is_sign(s@[0]) { s@.drop_first() } else { s@ };
    assert(t =~= s@.subrange(from as int, n as int));
    if special(s, from) {
        return true;
    }
    let mut k: usize = from;
    while k < n && !(s[k] == 'e' || s[k] == 'E')
        invariant
            from <= k <= n == s@.len(),
            forall|j: int| from <= j < k ==> !is_exp_mark(s@[j]),
        decreases n - k,
    {
        k = k + 1;
    }
    let ok = check_mantissa(s, from, k) && (k == n || check_exponent(s, k));
    proof {
        let kk = k - from;
        assert(t.subrange(0, kk) =~= s@.subrange(from as int, k as int));
        assert(t.subrange(kk, t.len() as int) =~= s@.subrange(k as int, n as int));
        if ok {
            assert(number(t));
        } else if number(t) {
            let k2 = choose|k2: int|
                0 <= k2 <= t.len() && mantissa(#[trigger] t.subrange(0, k2)) && (k2 == t.len()
                    || exponent(t.subrange(k2, t.len() as int)));
            if k2 < kk {
                assert(is_exp_mark(t.subrange(k2, t.len() as int)[0]));
                assert(t[k2] == s@[from + k2]);
            } else if k2 > kk {
                assert(t.subrange(0, k2)[kk] == t[kk]);
                assert(t[kk] == s@[k as int]);
            }
        }
    }
    ok
}

} // verus!
