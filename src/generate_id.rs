//! Allocation of sequential identifiers in a prefix + zero-padded number pattern.
use vstd::prelude::*;

verus! {

/// An ASCII decimal digit.
pub open spec fn is_digit(c: char) -> bool {
    '0' <= c && c <= '9'
}

/// Position of the first digit of `s` (its length when it holds none).
pub open spec fn digit_start(s: Seq<char>) -> nat
    decreases s.len(),
{
    if s.len() == 0 || is_digit(s[0]) {
        0
    } else {
        1 + digit_start(s.subrange(1, s.len() as int))
    }
}

/// The value of a run of decimal digits.
pub open spec fn digits_value(s: Seq<char>) -> nat
    decreases s.len(),
{
    if s.len() == 0 {
        0
    } else {
        digits_value(s.drop_last()) * 10 + (s.last() as nat - '0' as nat) as nat
    }
}

pub open spec fn all_digits(s: Seq<char>) -> bool {
    forall|i: int| 0 <= i < s.len() ==> is_digit(#[trigger] s[i])
}

/// Whether `s` reads as an unsigned machine integer: one digit or more, in range.
pub open spec fn parses_as_usize(s: Seq<char>) -> bool {
    s.len() > 0 && all_digits(s) && digits_value(s) <= usize::MAX
}

pub open spec fn digit_char(d: nat) -> char {
    ((d % 10) + '0' as nat) as char
}

/// Decimal notation of `n`, without leading zeros.
pub open spec fn decimal(n: nat) -> Seq<char>
    decreases n,
{
    if n < 10 {
        seq![digit_char(n)]
    } else {
        decimal(n / 10).push(digit_char(n % 10))
    }
}

/// `digits` preceded by as many zeros as bring it to `width` characters.
pub open spec fn zero_pad(digits: Seq<char>, width: nat) -> Seq<char> {
    if digits.len() >= width {
        digits
    } else {
        Seq::new((width - digits.len()) as nat, |i: int| '0') + digits
    }
}

/// The leading non-digit part of a pattern.
pub open spec fn pattern_prefix(pattern: Seq<char>) -> Seq<char> {
    pattern.subrange(0, digit_start(pattern) as int)
}

/// The part of a pattern from its first digit on.
pub open spec fn pattern_suffix(pattern: Seq<char>) -> Seq<char> {
    pattern.subrange(digit_start(pattern) as int, pattern.len() as int)
}

/// The identifier at position `index` of the sequence that follows `pattern`.
pub open spec fn stop_id_of(pattern: Seq<char>, index: nat) -> Seq<char> {
    let prefix = pattern_prefix(pattern);
    let suffix = pattern_suffix(pattern);
    if parses_as_usize(suffix) {
        prefix + zero_pad(decimal(digits_value(suffix) + index + 1), suffix.len())
    } else {
        prefix + decimal(index + 1)
    }
}

proof fn lemma_digit_start_bound(s: Seq<char>)
    ensures
        digit_start(s) <= s.len(),
        forall|j: int| 0 <= j < digit_start(s) ==> !is_digit(#[trigger] s[j]),
        digit_start(s) < s.len() ==> is_digit(s[digit_start(s) as int]),
    decreases s.len(),
{
    if s.len() > 0 && !is_digit(s[0]) {
        let t = s.subrange(1, s.len() as int);
        lemma_digit_start_bound(t);
        assert forall|j: int| 0 <= j < digit_start(s) implies !is_digit(#[trigger] s[j]) by {
            if j > 0 {
                assert(s[j] == t[j - 1]);
            }
        }
    }
}

/// Index of the first digit of `s`, or its length.
fn find_digit_start(s: &str) -> (k: usize)
    ensures
        k == digit_start(s@),
{
    let n = s.unicode_len();
    let mut i: usize = 0;
    assert(s@.subrange(0, n as int) =~= s@);
    while i < n
        invariant
            n == s@.len(),
            i <= n,
            digit_start(s@) == i + digit_start(s@.subrange(i as int, n as int)),
        decreases n - i,
    {
        let c = s.get_char(i);
        if '0' <= c && c <= '9' {
            return i;
        }
        assert(s@.subrange(i as int, n as int).subrange(1, (n - i) as int) =~= s@.subrange(
            i + 1,
            n as int,
        ));
        i = i + 1;
    }
    i
}

proof fn lemma_value_grows(s: Seq<char>)
    requires
        s.len() > 0,
    ensures
        digits_value(s) >= digits_value(s.drop_last()),
{
}

/// Reads the characters of `s` from `start` on as an unsigned machine integer.
fn parse_suffix(s: &str, start: usize, n: usize) -> (r: Option<u128>)
    requires
        start <= n,
        n == s@.len(),
    ensures
        match r {
            Some(v) => parses_as_usize(s@.subrange(start as int, n as int)) && v == digits_value(
                s@.subrange(start as int, n as int),
            ),
            None => !parses_as_usize(s@.subrange(start as int, n as int)),
        },
{
    if start == n {
        return None;
    }
    let mut v: u128 = 0;
    let mut too_big = false;
    let mut i: usize = start;
    while i < n
        invariant
            start <= i <= n,
            n == s@.len(),
            all_digits(s@.subrange(start as int, i as int)),
            !too_big ==> v == digits_value(s@.subrange(start as int, i as int)),
            !too_big ==> v <= usize::MAX,
            too_big ==> digits_value(s@.subrange(start as int, i as int)) > usize::MAX,
        decreases n - i,
    {
        let c = s.get_char(i);
        if !('0' <= c && c <= '9') {
            assert(!all_digits(s@.subrange(start as int, n as int))) by {
                assert(s@.subrange(start as int, n as int)[i - start] == c);
            }
            return None;
        }
        let ghost prev = s@.subrange(start as int, i as int);
        let ghost next = s@.subrange(start as int, i + 1);
        assert(next.drop_last() =~= prev);
        assert(next.last() == c);
        proof {
            lemma_value_grows(next);
        }
        if !too_big {
            v = v * 10 + (c as u128 - '0' as u128);
            if v > usize::MAX as u128 {
                too_big = true;
            }
        }
        i = i + 1;
    }
    if too_big {
        None
    } else {
        Some(v)
    }
}

/// The one-character text of a decimal digit.
fn digit_text(d: u8) -> (r: &'static str)
    requires
        d < 10,
    ensures
        r@ == seq![digit_char(d as nat)],
{
    if d == 0 {
        proof { reveal_strlit("0"); }
        "0"
    } else if d == 1 {
        proof { reveal_strlit("1"); }
        "1"
    } else if d == 2 {
        proof { reveal_strlit("2"); }
        "2"
    } else if d == 3 {
        proof { reveal_strlit("3"); }
        "3"
    } else if d == 4 {
        proof { reveal_strlit("4"); }
        "4"
    } else if d == 5 {
        proof { reveal_strlit("5"); }
        "5"
    } else if d == 6 {
        proof { reveal_strlit("6"); }
        "6"
    } else if d == 7 {
        proof { reveal_strlit("7"); }
        "7"
    } else if d == 8 {
        proof { reveal_strlit("8"); }
        "8"
    } else {
        proof { reveal_strlit("9"); }
        "9"
    }
}

/// Decimal notation of `n`.
fn decimal_text(n: u128) -> (r: String)
    ensures
        r@ == decimal(n as nat),
    decreases n,
{
    if n < 10 {
        String::from_str(digit_text(n as u8))
    } else {
        let mut r = decimal_text(n / 10);
        r.append(digit_text((n % 10) as u8));
        r
    }
}

/// The identifier at position `index` of the sequence that follows `pattern`.
///
/// The pattern is split at its first digit. When the rest reads as an
/// unsigned integer, the identifier is the leading part followed by that
/// value plus `index + 1`, zero-padded to the width the number had in the
/// pattern (a value that needs more digits is written in full). Otherwise it
/// is the leading part followed by `index + 1`, unpadded.
pub fn generate_stop_id(pattern: &str, index: usize) -> (r: String)
    ensures
        r@ == stop_id_of(pattern@, index as nat),
{
    let k = find_digit_start(pattern);
    let n = pattern.unicode_len();
    proof {
        lemma_digit_start_bound(pattern@);
    }
    let prefix = pattern.substring_char(0, k);
    let mut r = String::from_str(prefix);
    match parse_suffix(pattern, k, n) {
        Some(num) => {
            let digits = decimal_text(num + index as u128 + 1);
            let len = digits.as_str().unicode_len();
            let width = n - k;
            let mut i: usize = len;
            while i < width
                invariant
                    len <= i,
                    i <= width || i == len,
                    r@ == prefix@ + Seq::new((i - len) as nat, |j: int| '0'),
                decreases width - i,
            {
                proof {
                    reveal_strlit("0");
                }
                r.append("0");
                assert(Seq::new((i + 1 - len) as nat, |j: int| '0') =~= Seq::new(
                    (i - len) as nat,
                    |j: int| '0',
                ).push('0'));
                i = i + 1;
            }
            r.append(digits.as_str());
            assert(r@ =~= stop_id_of(pattern@, index as nat));
        },
        None => {
            let digits = decimal_text(index as u128 + 1);
            r.append(digits.as_str());
        },
    }
    r
}

proof fn lemma_decimal(n: nat)
    ensures
        decimal(n).len() > 0,
        all_digits(decimal(n)),
        digits_value(decimal(n)) == n,
        n > 0 ==> decimal(n)[0] != '0',
    decreases n,
{
    if n >= 10 {
        lemma_decimal(n / 10);
        let d = decimal(n);
        assert(d.drop_last() =~= decimal(n / 10));
        assert(d[0] == decimal(n / 10)[0]);
        assert(d.last() as nat - '0' as nat == n % 10);
        assert((n / 10) * 10 + n % 10 == n) by (nonlinear_arith);
        assert(digits_value(d) == digits_value(decimal(n / 10)) * 10 + n % 10);
        assert(digits_value(d) == n);
    } else {
        let d = decimal(n);
        assert(d.drop_last() =~= Seq::<char>::empty());
        assert(d.last() as nat - '0' as nat == n);
        assert(digits_value(d.drop_last()) == 0);
        assert(digits_value(d) == n);
    }
}

proof fn lemma_leading_zeros(zeros: nat, d: Seq<char>)
    requires
        all_digits(d),
    ensures
        all_digits(Seq::new(zeros, |j: int| '0') + d),
        digits_value(Seq::new(zeros, |j: int| '0') + d) == digits_value(d),
    decreases d.len(),
{
    let z = Seq::new(zeros, |j: int| '0');
    let s = z + d;
    if d.len() == 0 {
        assert(s =~= z);
        lemma_zeros_value(zeros);
    } else {
        lemma_leading_zeros(zeros, d.drop_last());
        assert(s.drop_last() =~= z + d.drop_last());
    }
}

proof fn lemma_zeros_value(zeros: nat)
    ensures
        all_digits(Seq::new(zeros, |j: int| '0')),
        digits_value(Seq::new(zeros, |j: int| '0')) == 0,
    decreases zeros,
{
    if zeros > 0 {
        lemma_zeros_value((zeros - 1) as nat);
        assert(Seq::new(zeros, |j: int| '0').drop_last() =~= Seq::new(
            (zeros - 1) as nat,
            |j: int| '0',
        ));
    }
}

/// When the pattern ends in a number of `width` digits, the identifier is the
/// pattern's leading part followed by at least `width` digits whose value is
/// that number plus `index + 1`.
pub proof fn lemma_numeric_suffix(pattern: Seq<char>, index: nat)
    requires
        parses_as_usize(pattern_suffix(pattern)),
    ensures
        ({
            let r = stop_id_of(pattern, index);
            let p = pattern_prefix(pattern);
            let tail = r.subrange(p.len() as int, r.len() as int);
            &&& r.subrange(0, p.len() as int) == p
            &&& tail.len() >= pattern_suffix(pattern).len()
            &&& all_digits(tail)
            &&& digits_value(tail) == digits_value(pattern_suffix(pattern)) + index + 1
        }),
{
    let r = stop_id_of(pattern, index);
    let p = pattern_prefix(pattern);
    let suffix = pattern_suffix(pattern);
    let d = decimal(digits_value(suffix) + index + 1);
    lemma_decimal(digits_value(suffix) + index + 1);
    let padded = zero_pad(d, suffix.len());
    if d.len() < suffix.len() {
        lemma_leading_zeros((suffix.len() - d.len()) as nat, d);
    }
    assert(r.subrange(0, p.len() as int) =~= p);
    assert(r.subrange(p.len() as int, r.len() as int) =~= padded);
}

/// When the pattern does not end in a number, the identifier is the pattern's
/// leading part followed by `index + 1`, written without padding.
pub proof fn lemma_plain_suffix(pattern: Seq<char>, index: nat)
    requires
        !parses_as_usize(pattern_suffix(pattern)),
    ensures
        stop_id_of(pattern, index) == pattern_prefix(pattern) + decimal(index + 1),
        all_digits(decimal(index + 1)),
        digits_value(decimal(index + 1)) == index + 1,
        decimal(index + 1)[0] != '0',
{
    lemma_decimal(index + 1);
}

} // verus!
