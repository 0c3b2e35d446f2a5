//! Program identifiers of the Chinachu recorder, as a collector reads them.
use vstd::prelude::*;
use crate::text::{chars_of, digits_end, exec_digits_end, is_digit, number, parse_number, same_text};

verus! {

/// A Chinachu composite identifier packs network, service and event identifiers as
/// `nid * 10^10 + sid * 10^5 + eid`.
pub const MIRAKURUN_ID_DIVISOR: u64 = 100000;

pub const NETWORK_ID_UNKNOWN: u16 = 0;

pub const NETWORK_ID_BS: u16 = 4;

/// Network, service and event identifiers of a program.
#[derive(Clone, Copy, Debug, PartialEq, Eq, Structural)]
pub struct ProgramID {
    pub nid: u16,
    pub sid: u16,
    pub eid: u16,
}

#[derive(Debug, PartialEq, Eq)]
pub enum ParseProgramIDError {
    /// The text follows neither identifier form.
    InvalidFormat(String),
    /// A number in the identifier does not fit its type.
    Parse(String),
}

pub open spec fn is_base36(c: char) -> bool {
    is_digit(c) || ('a' <= c <= 'z')
}

pub open spec fn base36_digit(c: char) -> int {
    if is_digit(c) {
        c as int - '0' as int
    } else {
        c as int - 'a' as int + 10
    }
}

/// End of the run of `[0-9a-z]` that starts at `i`.
pub open spec fn base36_end(s: Seq<char>, i: int) -> int
    decreases s.len() - i,
{
    if 0 <= i < s.len() && is_base36(s[i]) {
        base36_end(s, i + 1)
    } else {
        i
    }
}

/// Base-36 value of `s[i..j]`.
pub open spec fn base36_value(s: Seq<char>, i: int, j: int) -> int
    decreases j - i,
{
    if j <= i {
        0
    } else {
        base36_value(s, i, j - 1) * 36 + base36_digit(s[j - 1])
    }
}

pub open spec fn all_base36(s: Seq<char>, i: int, j: int) -> bool {
    0 <= i <= j <= s.len() && forall|k: int| i <= k < j ==> #[trigger] is_base36(s[k])
}

proof fn lemma_base36_end(s: Seq<char>, i: int)
    requires
        0 <= i <= s.len(),
    ensures
        i <= base36_end(s, i) <= s.len(),
        all_base36(s, i, base36_end(s, i)),
    decreases s.len() - i,
{
    if i < s.len() && is_base36(s[i]) {
        lemma_base36_end(s, i + 1);
    }
}

proof fn lemma_base36_monotone(s: Seq<char>, i: int, j: int, k: int)
    requires
        i <= j <= k,
        all_base36(s, i, k),
    ensures
        0 <= base36_value(s, i, j) <= base36_value(s, i, k),
    decreases k - i,
{
    if j < k {
        assert(is_base36(s[k - 1]));
        lemma_base36_monotone(s, i, j, k - 1);
    } else if i < j {
        assert(is_base36(s[j - 1]));
        lemma_base36_monotone(s, i, j - 1, j - 1);
    }
}

/// Which form a text follows, and the numbers it writes; `None` for neither form.
pub enum IdForm {
    /// `{type}{sid}-{eid}`, `eid` in base 36, optionally after `_`; `bs` tells the type.
    Beta { bs: bool, sid: int, eid: int },
    /// `{composite}` in base 36, optionally followed by `-{digits}`.
    Gamma { composite: int },
}

/// Length of the channel type a beta identifier starts with, and whether it is `bs`.
pub open spec fn beta_type(s: Seq<char>) -> Option<(int, bool)> {
    if s.len() >= 2 && s[0] == 'g' && s[1] == 'r' {
        Some((2, false))
    } else if s.len() >= 2 && s[0] == 'b' && s[1] == 's' {
        Some((2, true))
    } else if s.len() >= 2 && s[0] == 'c' && s[1] == 's' {
        Some((2, false))
    } else if s.len() >= 3 && s[0] == 's' && s[1] == 'k' && s[2] == 'y' {
        Some((3, false))
    } else {
        None
    }
}

pub open spec fn beta_form(s: Seq<char>) -> Option<IdForm> {
    match beta_type(s) {
        Some((t, bs)) => {
            let e1 = digits_end(s, t);
            if t < e1 && e1 < s.len() && s[e1] == '-' {
                let k = if e1 + 1 < s.len() && s[e1 + 1] == '_' {
                    e1 + 2
                } else {
                    e1 + 1
                };
                let e2 = base36_end(s, k);
                if k < e2 && e2 == s.len() {
                    Some(IdForm::Beta { bs, sid: number(s, t, e1), eid: base36_value(s, k, e2) })
                } else {
                    None
                }
            } else {
                None
            }
        },
        None => None,
    }
}

pub open spec fn gamma_form(s: Seq<char>) -> Option<IdForm> {
    let e = base36_end(s, 0);
    if 0 < e && (e == s.len() || (s[e] == '-' && e + 1 < digits_end(s, e + 1) && digits_end(
        s,
        e + 1,
    ) == s.len())) {
        Some(IdForm::Gamma { composite: base36_value(s, 0, e) })
    } else {
        None
    }
}

pub open spec fn id_form(s: Seq<char>) -> Option<IdForm> {
    match beta_form(s) {
        Some(f) => Some(f),
        None => gamma_form(s),
    }
}

/// The identifiers a text names, `None` when a number does not fit its type.
pub open spec fn id_values(f: IdForm) -> Option<(int, int, int)> {
    match f {
        IdForm::Beta { bs, sid, eid } => if sid <= u16::MAX && eid <= u16::MAX {
            Some(
                (
                    if bs {
                        NETWORK_ID_BS as int
                    } else {
                        NETWORK_ID_UNKNOWN as int
                    },
                    sid,
                    eid,
                ),
            )
        } else {
            None
        },
        IdForm::Gamma { composite } => if composite <= u64::MAX {
            Some(
                (
                    (composite / 10000000000) as u16 as int,
                    ((composite / 100000) % 100000) as u16 as int,
                    (composite % 100000) as u16 as int,
                ),
            )
        } else {
            None
        },
    }
}

fn exec_base36_end(s: &Vec<char>, i: usize) -> (r: usize)
    requires
        i <= s.len(),
    ensures
        r == base36_end(s@, i as int),
        i <= r <= s.len(),
        all_base36(s@, i as int, r as int),
{
    proof {
        lemma_base36_end(s@, i as int);
    }
    let mut j = i;
    while j < s.len() && (('0' <= s[j] && s[j] <= '9') || ('a' <= s[j] && s[j] <= 'z'))
        invariant
            i <= j <= s.len(),
            base36_end(s@, j as int) == base36_end(s@, i as int),
        decreases s.len() - j,
    {
        j += 1;
    }
    j
}

fn parse_base36(s: &Vec<char>, i: usize, j: usize, limit: u64) -> (r: Option<u64>)
    requires
        i <= j <= s.len(),
        all_base36(s@, i as int, j as int),
        limit >= 35,
    ensures
        match r {
            Some(v) => v as int == base36_value(s@, i as int, j as int) && v <= limit,
            None => base36_value(s@, i as int, j as int) > limit,
        },
{
    let mut v: u64 = 0;
    let mut k = i;
    while k < j
        invariant
            i <= k <= j <= s.len(),
            all_base36(s@, i as int, j as int),
            v == base36_value(s@, i as int, k as int),
            v <= limit,
            limit >= 35,
        decreases j - k,
    {
        assert(is_base36(s@[k as int]));
        let c = s[k];
        let d: u64 = if '0' <= c && c <= '9' {
            (c as u32 - '0' as u32) as u64
        } else {
            (c as u32 - 'a' as u32 + 10) as u64
        };
        if v > (limit - d) / 36 {
            proof {
                assert(v * 36 + d > limit) by (nonlinear_arith)
                    requires
                        v > (limit - d) / 36,
                        d <= limit,
                ;
                lemma_base36_monotone(s@, i as int, (k + 1) as int, j as int);
            }
            return None;
        }
        assert(v * 36 + d <= limit) by (nonlinear_arith)
            requires
                v <= (limit - d) / 36,
                d <= limit,
        ;
        v = v * 36 + d;
        k += 1;
    }
    Some(v)
}

/// The network identifier a beta identifier's channel type implies: BS has a known one.
pub fn chinachu_beta_channel_id_to_nid(ch_type: &str, _sid: u16) -> (r: u16)
    ensures
        r == (if ch_type@ == "bs"@ {
            NETWORK_ID_BS
        } else {
            NETWORK_ID_UNKNOWN
        }),
{
    if same_text(ch_type, "bs") {
        NETWORK_ID_BS
    } else {
        NETWORK_ID_UNKNOWN
    }
}

fn beta_type_exec(s: &Vec<char>) -> (r: Option<(usize, bool)>)
    ensures
        match r {
            Some((t, bs)) => beta_type(s@) == Some((t as int, bs)) && t <= s.len(),
            None => beta_type(s@) is None,
        },
{
    let n = s.len();
    if n >= 2 && s[0] == 'g' && s[1] == 'r' {
        Some((2, false))
    } else if n >= 2 && s[0] == 'b' && s[1] == 's' {
        Some((2, true))
    } else if n >= 2 && s[0] == 'c' && s[1] == 's' {
        Some((2, false))
    } else if n >= 3 && s[0] == 's' && s[1] == 'k' && s[2] == 'y' {
        Some((3, false))
    } else {
        None
    }
}

impl ProgramID {
    /// Reads an identifier of either form.
    pub fn from_str(text: &str) -> (r: Result<ProgramID, ParseProgramIDError>)
        ensures
            match id_form(text@) {
                None => r matches Err(e) && e is InvalidFormat,
                Some(f) => match id_values(f) {
                    Some((nid, sid, eid)) => r == Ok::<ProgramID, ParseProgramIDError>(
                        ProgramID { nid: nid as u16, sid: sid as u16, eid: eid as u16 },
                    ),
                    None => r matches Err(e) && e is Parse,
                },
            },
    {
        let s = chars_of(text);
        let n = s.len();
        match beta_type_exec(&s) {
            Some((t, bs)) => {
                let e1 = exec_digits_end(&s, t);
                if t < e1 && e1 < n && s[e1] == '-' {
                    let k = if e1 + 1 < n && s[e1 + 1] == '_' {
                        e1 + 2
                    } else {
                        e1 + 1
                    };
                    let e2 = exec_base36_end(&s, k);
                    if k < e2 && e2 == n {
                        let sid = match parse_number(&s, t, e1, 65535) {
                            Some(v) => v,
                            None => return Err(ParseProgramIDError::Parse(String::from_str("service id out of range"))),
                        };
                        let eid = match parse_base36(&s, k, e2, 65535) {
                            Some(v) => v,
                            None => return Err(ParseProgramIDError::Parse(String::from_str("event id out of range"))),
                        };
                        let nid = if bs {
                            NETWORK_ID_BS
                        } else {
                            NETWORK_ID_UNKNOWN
                        };
                        return Ok(ProgramID { nid, sid: sid as u16, eid: eid as u16 });
                    }
                }
            },
            None => {},
        }
        let e = exec_base36_end(&s, 0);
        let gamma = 0 < e && (e == n || (s[e] == '-' && {
            let d = exec_digits_end(&s, e + 1);
            e + 1 < d && d == n
        }));
        if !gamma {
            return Err(ParseProgramIDError::InvalidFormat(String::from_str(text)));
        }
        match parse_base36(&s, 0, e, u64::MAX) {
            Some(composite) => Ok(
                ProgramID {
                    nid: #[verifier::truncate] ((composite / (MIRAKURUN_ID_DIVISOR * MIRAKURUN_ID_DIVISOR)) as u16),
                    sid: #[verifier::truncate] (((composite / MIRAKURUN_ID_DIVISOR) % MIRAKURUN_ID_DIVISOR) as u16),
                    eid: #[verifier::truncate] ((composite % MIRAKURUN_ID_DIVISOR) as u16),
                },
            ),
            None => Err(ParseProgramIDError::Parse(String::from_str("composite id out of range"))),
        }
    }
}

impl std::str::FromStr for ProgramID {
    type Err = ParseProgramIDError;

    fn from_str(s: &str) -> Result<ProgramID, ParseProgramIDError> {
        ProgramID::from_str(s)
    }
}

} // verus!
