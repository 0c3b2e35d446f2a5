//! The `channel_type` matcher: a comma-separated set of broadcast media.
use vstd::prelude::*;
use crate::model::ChannelType as Medium;
use crate::text::{chars_of, string_of, trim, trim_chars};

verus! {

/// Splitting the first `n` characters of `s` at commas: the finished pieces, and the piece
/// being read.
pub open spec fn split_state(s: Seq<char>, n: int) -> (Seq<Seq<char>>, Seq<char>)
    decreases n,
{
    if n <= 0 {
        (Seq::empty(), Seq::empty())
    } else {
        let (done, cur) = split_state(s, n - 1);
        if s[n - 1] == ',' {
            (done.push(cur), Seq::empty())
        } else {
            (done, cur.push(s[n - 1]))
        }
    }
}

/// The pieces of `s` between commas.
pub open spec fn pieces(s: Seq<char>) -> Seq<Seq<char>> {
    let (done, cur) = split_state(s, s.len() as int);
    done.push(cur)
}

/// `c` is the capital letter `upper`, or its ASCII lower-case form.
pub open spec fn same_letter(c: char, upper: char) -> bool {
    c == upper || ('A' <= upper <= 'Z' && c as u32 == upper as u32 + 32)
}

/// `t` spells `name` (given in capitals), ignoring ASCII case.
pub open spec fn spells(t: Seq<char>, name: Seq<char>) -> bool {
    t.len() == name.len() && forall|i: int| 0 <= i < t.len() ==> same_letter(#[trigger] t[i], name[i])
}

/// The medium a trimmed piece names: `GR`, `BS`, `CS` or `SKY`, in any ASCII case.
pub open spec fn medium_named(t: Seq<char>) -> Option<Medium> {
    if spells(t, seq!['G', 'R']) {
        Some(Medium::GR)
    } else if spells(t, seq!['B', 'S']) {
        Some(Medium::BS)
    } else if spells(t, seq!['C', 'S']) {
        Some(Medium::CS)
    } else if spells(t, seq!['S', 'K', 'Y']) {
        Some(Medium::Sky)
    } else {
        None
    }
}

/// Media the pieces name, in order.
pub open spec fn named_media(ps: Seq<Seq<char>>) -> Seq<Medium>
    decreases ps.len(),
{
    if ps.len() == 0 {
        Seq::empty()
    } else {
        let rest = named_media(ps.drop_last());
        match medium_named(trim(ps.last())) {
            Some(m) => rest.push(m),
            None => rest,
        }
    }
}

/// How many pieces name no medium.
pub open spec fn unnamed_count(ps: Seq<Seq<char>>) -> nat
    decreases ps.len(),
{
    if ps.len() == 0 {
        0
    } else {
        let rest = unnamed_count(ps.drop_last());
        match medium_named(trim(ps.last())) {
            Some(_) => rest,
            None => rest + 1,
        }
    }
}

fn same_letter_exec(c: char, upper: char) -> (r: bool)
    ensures
        r == same_letter(c, upper),
{
    c == upper || ('A' <= upper && upper <= 'Z' && c as u32 == upper as u32 + 32)
}

fn spells_exec(t: &Vec<char>, name: &[char]) -> (r: bool)
    ensures
        r == spells(t@, name@),
{
    if t.len() != name.len() {
        return false;
    }
    let mut i: usize = 0;
    while i < t.len()
        invariant
            t.len() == name@.len(),
            i <= t.len(),
            forall|k: int| 0 <= k < i ==> same_letter(#[trigger] t@[k], name@[k]),
        decreases t.len() - i,
    {
        if !same_letter_exec(t[i], name[i]) {
            return false;
        }
        i += 1;
    }
    true
}

fn medium_of(t: &Vec<char>) -> (r: Option<Medium>)
    ensures
        r == medium_named(t@),
{
    let gr: [char; 2] = ['G', 'R'];
    let bs: [char; 2] = ['B', 'S'];
    let cs: [char; 2] = ['C', 'S'];
    let sky: [char; 3] = ['S', 'K', 'Y'];
    assert(gr@ =~= seq!['G', 'R']);
    assert(bs@ =~= seq!['B', 'S']);
    assert(cs@ =~= seq!['C', 'S']);
    assert(sky@ =~= seq!['S', 'K', 'Y']);
    if spells_exec(t, gr.as_slice()) {
        Some(Medium::GR)
    } else if spells_exec(t, bs.as_slice()) {
        Some(Medium::BS)
    } else if spells_exec(t, cs.as_slice()) {
        Some(Medium::CS)
    } else if spells_exec(t, sky.as_slice()) {
        Some(Medium::Sky)
    } else {
        None
    }
}

/// A set of broadcast media; a channel matches when its medium is in the set.
#[derive(Debug)]
pub struct ChannelType {
    pub raw_value: String,
    pub values: Vec<Medium>,
    pub invalid_values: Vec<String>,
}

impl ChannelType {
    /// What a matcher read from `s` holds: nothing for an empty value; otherwise the media its
    /// comma-separated pieces name, and one invalid entry for each piece that names none.
    pub open spec fn read_from(self, s: Seq<char>) -> bool {
        &&& self.raw_value@ == s
        &&& if s.len() == 0 {
            self.values@.len() == 0 && self.invalid_values@.len() == 0
        } else {
            self.values@ == named_media(pieces(s)) && self.invalid_values@.len() == unnamed_count(
                pieces(s),
            )
        }
    }

    pub fn new(value: String) -> (r: ChannelType)
        ensures
            r.read_from(value@),
    {
        let s = chars_of(value.as_str());
        let mut values: Vec<Medium> = Vec::new();
        let mut invalid_values: Vec<String> = Vec::new();
        if s.len() == 0 {
            return ChannelType { raw_value: value, values, invalid_values };
        }
        let mut cur: Vec<char> = Vec::new();
        let mut i: usize = 0;
        while i < s.len()
            invariant
                i <= s.len(),
                cur@ == split_state(s@, i as int).1,
                values@ == named_media(split_state(s@, i as int).0),
                invalid_values@.len() == unnamed_count(split_state(s@, i as int).0),
            decreases s.len() - i,
        {
            let ghost done = split_state(s@, i as int).0;
            if s[i] == ',' {
                let t = trim_chars(&cur);
                match medium_of(&t) {
                    Some(m) => values.push(m),
                    None => invalid_values.push(string_of(&t)),
                }
                proof {
                    assert(done.push(cur@).drop_last() =~= done);
                }
                cur = Vec::new();
            } else {
                cur.push(s[i]);
            }
            i += 1;
        }
        let t = trim_chars(&cur);
        match medium_of(&t) {
            Some(m) => values.push(m),
            None => invalid_values.push(string_of(&t)),
        }
        proof {
            let done = split_state(s@, s@.len() as int).0;
            assert(done.push(cur@).drop_last() =~= done);
        }
        ChannelType { raw_value: value, values, invalid_values }
    }

    pub fn validate(&self) -> (r: Result<(), String>)
        ensures
            r is Ok <==> self.invalid_values@.len() == 0,
    {
        if self.invalid_values.len() == 0 {
            Ok(())
        } else {
            Err(String::from_str("invalid channel type"))
        }
    }

    pub fn matches(&self, input: Medium) -> (r: bool)
        ensures
            r == self.values@.contains(input),
    {
        let mut i: usize = 0;
        while i < self.values.len()
            invariant
                i <= self.values.len(),
                forall|k: int| 0 <= k < i ==> self.values@[k] != input,
            decreases self.values.len() - i,
        {
            if self.values[i] == input {
                return true;
            }
            i += 1;
        }
        false
    }
}

impl Default for ChannelType {
    fn default() -> (r: ChannelType)
        ensures
            r.raw_value@.len() == 0,
            r.values@.len() == 0,
            r.invalid_values@.len() == 0,
    {
        ChannelType::new(String::new())
    }
}

} // verus!
