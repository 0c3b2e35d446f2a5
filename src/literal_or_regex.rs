//! Matchers whose value is either a literal or, between slashes, a regular expression.
use vstd::prelude::*;
use crate::text::{
    chars_of, digits_end, exec_digits_end, number, parse_number, slice_chars, string_of,
};

verus! {

/// Whether `pattern` is a regular expression that the `regex` crate compiles.
pub uninterp spec fn regex_accepts(pattern: Seq<char>) -> bool;

/// Whether the compiled `pattern` finds a match anywhere in `text`.
pub uninterp spec fn regex_finds(pattern: Seq<char>, text: Seq<char>) -> bool;

/// Relies on `regex::Regex::new`, which fails exactly on patterns it cannot compile, and on
/// `Regex::is_match`, whose answer depends on the pattern and the text alone.
#[verifier::external_body]
fn regex_search(pattern: &str, text: &str) -> (r: Option<bool>)
    ensures
        r is Some <==> regex_accepts(pattern@),
        r matches Some(b) ==> b == regex_finds(pattern@, text@),
{
    match regex::Regex::new(pattern) {
        Ok(re) => Some(re.is_match(text)),
        Err(_) => None,
    }
}

pub open spec fn digit_char(d: int) -> char {
    ((d + '0' as int) as u32) as char
}

/// Decimal digits of a natural number, without leading zeros.
pub open spec fn digits_of(n: nat) -> Seq<char>
    decreases n,
{
    if n < 10 {
        seq![digit_char(n as int)]
    } else {
        digits_of(n / 10).push(digit_char(n as int % 10))
    }
}

/// An integer as `ToString` writes it: a minus sign for negatives, then its digits.
pub open spec fn decimal(n: int) -> Seq<char> {
    if n < 0 {
        seq!['-'] + digits_of((-n) as nat)
    } else {
        digits_of(n as nat)
    }
}

/// Relies on `ToString` for `i32`, which writes the number in decimal.
#[verifier::external_body]
fn i32_text(n: i32) -> (r: String)
    ensures
        r@ == decimal(n as int),
{
    n.to_string()
}

/// `needle` occurs in `hay` at position `i`.
pub open spec fn occurs_at(hay: Seq<char>, needle: Seq<char>, i: int) -> bool {
    0 <= i && i + needle.len() <= hay.len() && hay.subrange(i, i + needle.len()) == needle
}

pub open spec fn contains_text(hay: Seq<char>, needle: Seq<char>) -> bool {
    exists|i: int| #[trigger] occurs_at(hay, needle, i)
}

fn occurs_at_exec(hay: &Vec<char>, needle: &Vec<char>, i: usize) -> (r: bool)
    requires
        i + needle.len() <= hay.len(),
    ensures
        r == occurs_at(hay@, needle@, i as int),
{
    let mut k: usize = 0;
    while k < needle.len()
        invariant
            k <= needle.len(),
            i + needle.len() <= hay.len(),
            forall|m: int| 0 <= m < k ==> hay@[i + m] == needle@[m],
        decreases needle.len() - k,
    {
        if hay[i + k] != needle[k] {
            assert(hay@.subrange(i as int, i + needle.len())[k as int] != needle@[k as int]);
            return false;
        }
        k += 1;
    }
    assert(hay@.subrange(i as int, i + needle.len()) =~= needle@);
    true
}

/// Whether `needle` occurs in `hay`.
pub fn find_text(hay: &Vec<char>, needle: &Vec<char>) -> (r: bool)
    ensures
        r == contains_text(hay@, needle@),
{
    if needle.len() > hay.len() {
        return false;
    }
    if needle.len() == 0 {
        assert(occurs_at(hay@, needle@, 0)) by {
            assert(hay@.subrange(0, 0) =~= needle@);
        }
        return true;
    }
    let last = hay.len() - needle.len();
    let mut i: usize = 0;
    while i <= last
        invariant
            last == hay.len() - needle.len(),
            needle.len() >= 1,
            i <= last + 1,
            forall|m: int| 0 <= m < i ==> !#[trigger] occurs_at(hay@, needle@, m),
        decreases last + 1 - i,
    {
        if occurs_at_exec(hay, needle, i) {
            return true;
        }
        i += 1;
    }
    false
}

/// The `i32` that `s` writes: an optional sign, then decimal digits, nothing else.
pub open spec fn i32_literal(s: Seq<char>) -> Option<int> {
    let neg = s.len() > 0 && s[0] == '-';
    let start: int = if s.len() > 0 && (s[0] == '-' || s[0] == '+') {
        1
    } else {
        0
    };
    let end = digits_end(s, start);
    if start < end && end == s.len() {
        let v = if neg {
            -number(s, start, end)
        } else {
            number(s, start, end)
        };
        if i32::MIN <= v <= i32::MAX {
            Some(v)
        } else {
            None
        }
    } else {
        None
    }
}

fn parse_i32(s: &Vec<char>) -> (r: Option<i32>)
    ensures
        match r {
            Some(v) => i32_literal(s@) == Some(v as int),
            None => i32_literal(s@) is None,
        },
{
    let neg = s.len() > 0 && s[0] == '-';
    let start: usize = if s.len() > 0 && (s[0] == '-' || s[0] == '+') {
        1
    } else {
        0
    };
    let end = exec_digits_end(s, start);
    if !(start < end && end == s.len()) {
        return None;
    }
    match parse_number(s, start, end, 2147483648) {
        Some(v) => {
            if neg {
                Some((0 - v as i64) as i32)
            } else if v <= 2147483647 {
                Some(v as i32)
            } else {
                None
            }
        },
        None => None,
    }
}

/// A parsed matcher value.
#[derive(Debug)]
pub enum LiteralOrRegexValue<T> {
    /// An empty value: valid, and matches nothing.
    Empty,
    Literal(T),
    /// A value that is neither a regular expression nor a readable literal.
    InvalidLiteral,
    /// A regular expression, written between slashes.
    Regex(String),
    InvalidRegex(String),
}

/// The pattern between the slashes of `/pattern/`, if `s` is written so.
pub open spec fn slashed(s: Seq<char>) -> Option<Seq<char>> {
    if s.len() >= 2 && s[0] == '/' && s[s.len() - 1] == '/' {
        Some(s.subrange(1, s.len() - 1))
    } else {
        None
    }
}

/// Reads `/pattern/` as a regular expression; returns `None` for anything else.
fn read_slashed<T>(s: &Vec<char>) -> (r: Option<LiteralOrRegexValue<T>>)
    ensures
        r is Some <==> slashed(s@) is Some,
        r matches Some(v) ==> (v is Regex || v is InvalidRegex) && match v {
            LiteralOrRegexValue::Regex(p) => regex_accepts(p@) && slashed(s@) == Some(p@),
            LiteralOrRegexValue::InvalidRegex(p) => !regex_accepts(p@) && slashed(s@) == Some(
                p@,
            ),
            _ => false,
        },
{
    let n = s.len();
    if n >= 2 && s[0] == '/' && s[n - 1] == '/' {
        let inner = slice_chars(s, 1, n - 1);
        let pattern = string_of(&inner);
        match regex_search(pattern.as_str(), "") {
            Some(_) => Some(LiteralOrRegexValue::Regex(pattern)),
            None => Some(LiteralOrRegexValue::InvalidRegex(pattern)),
        }
    } else {
        None
    }
}

/// A string matcher: a literal matches text containing it; `/re/` matches text the
/// expression finds a match in; an empty value matches nothing.
#[derive(Debug)]
pub struct StringOrRegex {
    pub raw_value: String,
    pub value: LiteralOrRegexValue<String>,
}

impl StringOrRegex {
    /// Whether the matcher accepts `input`.
    pub open spec fn accepts(self, input: Seq<char>) -> bool {
        match self.value {
            LiteralOrRegexValue::Literal(lit) => contains_text(input, lit@),
            LiteralOrRegexValue::Regex(p) => regex_accepts(p@) && regex_finds(p@, input),
            _ => false,
        }
    }

    pub open spec fn read_from(self, s: Seq<char>) -> bool {
        &&& self.raw_value@ == s
        &&& match self.value {
            LiteralOrRegexValue::Literal(lit) => s.len() > 0 && slashed(s) is None && lit@ == s,
            LiteralOrRegexValue::Regex(p) => s.len() > 0 && regex_accepts(p@) && slashed(s)
                == Some(p@),
            LiteralOrRegexValue::InvalidRegex(p) => s.len() > 0 && !regex_accepts(p@) && slashed(
                s,
            ) == Some(p@),
            LiteralOrRegexValue::Empty => s.len() == 0,
            LiteralOrRegexValue::InvalidLiteral => false,
        }
    }

    pub fn new(value: String) -> (r: StringOrRegex)
        ensures
            r.read_from(value@),
    {
        let chars = chars_of(value.as_str());
        let parsed = if chars.len() == 0 {
            LiteralOrRegexValue::Empty
        } else {
            match read_slashed(&chars) {
                Some(v) => v,
                None => LiteralOrRegexValue::Literal(value.clone()),
            }
        };
        StringOrRegex { raw_value: value, value: parsed }
    }

    pub fn validate(&self) -> (r: Result<(), String>)
        ensures
            r is Ok <==> !(self.value is InvalidRegex || self.value is InvalidLiteral),
    {
        match &self.value {
            LiteralOrRegexValue::InvalidRegex(_) => Err(
                String::from_str("invalid regular expression"),
            ),
            LiteralOrRegexValue::InvalidLiteral => Err(String::from_str("invalid literal")),
            _ => Ok(()),
        }
    }

    pub fn matches(&self, input: &str) -> (r: bool)
        ensures
            r == self.accepts(input@),
    {
        match &self.value {
            LiteralOrRegexValue::Literal(lit) => {
                let hay = chars_of(input);
                let needle = chars_of(lit.as_str());
                find_text(&hay, &needle)
            },
            LiteralOrRegexValue::Regex(p) => match regex_search(p.as_str(), input) {
                Some(b) => b,
                None => false,
            },
            _ => false,
        }
    }
}

impl Default for StringOrRegex {
    fn default() -> (r: StringOrRegex)
        ensures
            r.raw_value@.len() == 0,
            r.value is Empty,
    {
        StringOrRegex::new(String::new())
    }
}

/// An integer matcher: a literal matches the equal number; `/re/` matches numbers whose
/// decimal text the expression finds a match in; an empty value matches nothing.
#[derive(Debug)]
pub struct Int32OrRegex {
    pub raw_value: String,
    pub value: LiteralOrRegexValue<i32>,
}

impl Int32OrRegex {
    pub open spec fn accepts(self, input: i32) -> bool {
        match self.value {
            LiteralOrRegexValue::Literal(lit) => lit == input,
            LiteralOrRegexValue::Regex(p) => regex_accepts(p@) && regex_finds(p@, decimal(input as int)),
            _ => false,
        }
    }

    pub open spec fn read_from(self, s: Seq<char>) -> bool {
        &&& self.raw_value@ == s
        &&& match self.value {
            LiteralOrRegexValue::Literal(lit) => s.len() > 0 && slashed(s) is None
                && i32_literal(s) == Some(lit as int),
            LiteralOrRegexValue::InvalidLiteral => s.len() > 0 && slashed(s) is None
                && i32_literal(s) is None,
            LiteralOrRegexValue::Regex(p) => s.len() > 0 && regex_accepts(p@) && slashed(s)
                == Some(p@),
            LiteralOrRegexValue::InvalidRegex(p) => s.len() > 0 && !regex_accepts(p@) && slashed(
                s,
            ) == Some(p@),
            LiteralOrRegexValue::Empty => s.len() == 0,
        }
    }

    pub fn new(value: String) -> (r: Int32OrRegex)
        ensures
            r.read_from(value@),
    {
        let chars = chars_of(value.as_str());
        let parsed = if chars.len() == 0 {
            LiteralOrRegexValue::Empty
        } else {
            match read_slashed(&chars) {
                Some(v) => v,
                None => match parse_i32(&chars) {
                    Some(v) => LiteralOrRegexValue::Literal(v),
                    None => LiteralOrRegexValue::InvalidLiteral,
                },
            }
        };
        Int32OrRegex { raw_value: value, value: parsed }
    }

    pub fn validate(&self) -> (r: Result<(), String>)
        ensures
            r is Ok <==> !(self.value is InvalidRegex || self.value is InvalidLiteral),
    {
        match &self.value {
            LiteralOrRegexValue::InvalidRegex(_) => Err(
                String::from_str("invalid regular expression"),
            ),
            LiteralOrRegexValue::InvalidLiteral => Err(String::from_str("invalid literal")),
            _ => Ok(()),
        }
    }

    pub fn matches(&self, input: i32) -> (r: bool)
        ensures
            r == self.accepts(input),
    {
        match &self.value {
            LiteralOrRegexValue::Literal(lit) => *lit == input,
            LiteralOrRegexValue::Regex(p) => {
                let text = i32_text(input);
                match regex_search(p.as_str(), text.as_str()) {
                    Some(b) => b,
                    None => false,
                }
            },
            _ => false,
        }
    }
}

impl Default for Int32OrRegex {
    fn default() -> (r: Int32OrRegex)
        ensures
            r.raw_value@.len() == 0,
            r.value is Empty,
    {
        Int32OrRegex::new(String::new())
    }
}

} // verus!
