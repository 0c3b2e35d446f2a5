use vstd::prelude::*;

verus! {

/// Whitespace as the condition grammar understands it.
pub open spec fn is_space(c: char) -> bool {
    c == ' ' || c == '\t' || c == '\n' || c == '\r' || c == '\x0B' || c == '\x0C'
}

pub open spec fn is_digit(c: char) -> bool {
    '0' <= c <= '9'
}

pub open spec fn digit_value(c: char) -> int {
    c as int - '0' as int
}

/// First position at or after `i` that does not hold whitespace.
pub open spec fn skip_spaces(s: Seq<char>, i: int) -> int
    decreases s.len() - i,
{
    if 0 <= i < s.len() && is_space(s[i]) {
        skip_spaces(s, i + 1)
    } else {
        i
    }
}

/// Last position at or before `j` such that `s[..j]` ends in no whitespace.
pub open spec fn trailing_start(s: Seq<char>, j: int) -> int
    decreases j,
{
    if 0 < j <= s.len() && is_space(s[j - 1]) {
        trailing_start(s, j - 1)
    } else {
        j
    }
}

/// `s` with leading and trailing whitespace removed.
pub open spec fn trim(s: Seq<char>) -> Seq<char> {
    let a = skip_spaces(s, 0);
    let b = trailing_start(s, s.len() as int);
    if a < b {
        s.subrange(a, b)
    } else {
        Seq::empty()
    }
}

/// End of the run of decimal digits that starts at `i`.
pub open spec fn digits_end(s: Seq<char>, i: int) -> int
    decreases s.len() - i,
{
    if 0 <= i < s.len() && is_digit(s[i]) {
        digits_end(s, i + 1)
    } else {
        i
    }
}

/// Decimal value of `s[i..j]`.
pub open spec fn number(s: Seq<char>, i: int, j: int) -> int
    decreases j - i,
{
    if j <= i {
        0
    } else {
        number(s, i, j - 1) * 10 + digit_value(s[j - 1])
    }
}

/// `s[i..i + n]` are all decimal digits.
pub open spec fn all_digits(s: Seq<char>, i: int, n: int) -> bool {
    0 <= i && i + n <= s.len() && forall|k: int| i <= k < i + n ==> #[trigger] is_digit(s[k])
}

pub proof fn lemma_number_nonneg(s: Seq<char>, i: int, j: int)
    requires
        all_digits(s, i, j - i),
        i <= j,
    ensures
        number(s, i, j) >= 0,
    decreases j - i,
{
    if j > i {
        assert(is_digit(s[j - 1]));
        lemma_number_nonneg(s, i, j - 1);
    }
}

pub open spec fn pow10(n: nat) -> int
    decreases n,
{
    if n == 0 {
        1
    } else {
        10 * pow10((n - 1) as nat)
    }
}

/// `n` digits write a number below `10^n`.
pub proof fn lemma_number_below_pow10(s: Seq<char>, i: int, j: int)
    requires
        all_digits(s, i, j - i),
        i <= j,
    ensures
        0 <= number(s, i, j) < pow10((j - i) as nat),
    decreases j - i,
{
    if j > i {
        assert(is_digit(s[j - 1]));
        lemma_number_below_pow10(s, i, j - 1);
        let a = number(s, i, j - 1);
        let p = pow10((j - 1 - i) as nat);
        assert(pow10((j - i) as nat) == 10 * p);
        let d = digit_value(s[j - 1]);
        assert(a * 10 + d < 10 * p) by (nonlinear_arith)
            requires
                0 <= a < p,
                0 <= d <= 9,
        ;
    }
}

/// Appending digits never makes a number smaller.
pub proof fn lemma_number_monotone(s: Seq<char>, i: int, j: int, k: int)
    requires
        i <= j <= k,
        all_digits(s, i, k - i),
    ensures
        number(s, i, j) <= number(s, i, k),
    decreases k - j,
{
    if j < k {
        assert(is_digit(s[k - 1]));
        lemma_number_monotone(s, i, j, k - 1);
        lemma_number_nonneg(s, i, k - 1);
    }
}

/// The characters of `s`, one by one.
pub fn chars_of(s: &str) -> (r: Vec<char>)
    ensures
        r@ == s@,
{
    let n = s.unicode_len();
    let mut r: Vec<char> = Vec::new();
    let mut i: usize = 0;
    while i < n
        invariant
            n == s@.len(),
            i <= n,
            r@ == s@.subrange(0, i as int),
        decreases n - i,
    {
        r.push(s.get_char(i));
        i += 1;
    }
    assert(r@ =~= s@);
    r
}

/// Relies on `FromIterator<char>` for `String`, which collects the characters in order.
#[verifier::external_body]
pub(crate) fn string_of(chars: &Vec<char>) -> (r: String)
    ensures
        r@ == chars@,
{
    chars.iter().collect()
}

/// Whether two strings hold the same characters.
pub fn same_text(a: &str, b: &str) -> (r: bool)
    ensures
        r == (a@ == b@),
{
    let n = a.unicode_len();
    if n != b.unicode_len() {
        return false;
    }
    let mut i: usize = 0;
    while i < n
        invariant
            n == a@.len() == b@.len(),
            i <= n,
            forall|k: int| 0 <= k < i ==> a@[k] == b@[k],
        decreases n - i,
    {
        if a.get_char(i) != b.get_char(i) {
            return false;
        }
        i += 1;
    }
    assert(a@ =~= b@);
    true
}

/// The characters `s[a..b]`.
pub fn slice_chars(s: &Vec<char>, a: usize, b: usize) -> (r: Vec<char>)
    requires
        a <= b <= s.len(),
    ensures
        r@ == s@.subrange(a as int, b as int),
{
    let mut r: Vec<char> = Vec::new();
    let mut i: usize = a;
    while i < b
        invariant
            a <= i <= b,
            b <= s.len(),
            r@ == s@.subrange(a as int, i as int),
        decreases b - i,
    {
        r.push(s[i]);
        i += 1;
        assert(r@ =~= s@.subrange(a as int, i as int));
    }
    r
}

pub fn char_is_space(c: char) -> (r: bool)
    ensures
        r == is_space(c),
{
    c == ' ' || c == '\t' || c == '\n' || c == '\r' || c == '\x0B' || c == '\x0C'
}

pub fn char_is_digit(c: char) -> (r: bool)
    ensures
        r == is_digit(c),
{
    '0' <= c && c <= '9'
}

pub fn exec_skip_spaces(s: &Vec<char>, i: usize) -> (r: usize)
    requires
        i <= s.len(),
    ensures
        r == skip_spaces(s@, i as int),
        i <= r <= s.len(),
{
    let mut j = i;
    while j < s.len() && char_is_space(s[j])
        invariant
            i <= j <= s.len(),
            skip_spaces(s@, j as int) == skip_spaces(s@, i as int),
        decreases s.len() - j,
    {
        j += 1;
    }
    j
}

pub fn exec_digits_end(s: &Vec<char>, i: usize) -> (r: usize)
    requires
        i <= s.len(),
    ensures
        r == digits_end(s@, i as int),
        i <= r <= s.len(),
        all_digits(s@, i as int, r - i),
{
    let mut j = i;
    while j < s.len() && char_is_digit(s[j])
        invariant
            i <= j <= s.len(),
            digits_end(s@, j as int) == digits_end(s@, i as int),
            all_digits(s@, i as int, j - i),
        decreases s.len() - j,
    {
        j += 1;
    }
    j
}

/// `s` without leading and trailing whitespace.
pub fn trim_chars(s: &Vec<char>) -> (r: Vec<char>)
    ensures
        r@ == trim(s@),
{
    let a = exec_skip_spaces(s, 0);
    let mut b = s.len();
    while b > 0 && char_is_space(s[b - 1])
        invariant
            b <= s.len(),
            trailing_start(s@, b as int) == trailing_start(s@, s.len() as int),
        decreases b,
    {
        b -= 1;
    }
    if a < b {
        slice_chars(s, a, b)
    } else {
        Vec::new()
    }
}

/// Decimal value of the digits `s[i..j]`, when it is at most `limit`.
pub fn parse_number(s: &Vec<char>, i: usize, j: usize, limit: u64) -> (r: Option<u64>)
    requires
        i <= j <= s.len(),
        all_digits(s@, i as int, j - i),
        limit >= 9,
    ensures
        match r {
            Some(v) => v as int == number(s@, i as int, j as int) && v <= limit,
            None => number(s@, i as int, j as int) > limit,
        },
{
    proof {
        lemma_number_nonneg(s@, i as int, j as int);
    }
    let mut v: u64 = 0;
    let mut k = i;
    while k < j
        invariant
            i <= k <= j <= s.len(),
            all_digits(s@, i as int, j - i),
            v == number(s@, i as int, k as int),
            v <= limit,
            limit >= 9,
        decreases j - k,
    {
        assert(is_digit(s@[k as int]));
        proof {
            lemma_number_nonneg(s@, i as int, k as int);
        }
        let d = (s[k] as u32 - '0' as u32) as u64;
        if v > (limit - d) / 10 {
            proof {
                assert(v * 10 + d > limit) by (nonlinear_arith)
                    requires
                        v > (limit - d) / 10,
                        d <= limit,
                ;
                lemma_number_monotone(s@, i as int, (k + 1) as int, j as int);
            }
            return None;
        }
        assert(v * 10 + d <= limit) by (nonlinear_arith)
            requires
                v <= (limit - d) / 10,
                d <= limit,
        ;
        v = v * 10 + d;
        k += 1;
    }
    Some(v)
}

} // verus!
