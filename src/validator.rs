//! Checks on what clients send before anything is stored.
use vstd::prelude::*;
use crate::wire;

verus! {

/// Largest metadata key, in bytes.
pub const MAX_METADATA_KEY_BYTES: usize = 255;

/// Largest metadata value, in bytes.
pub const MAX_METADATA_VALUE_BYTES: usize = 1048576;

/// A file name names one entry of a directory: no separator, and not `.` or `..`.
pub open spec fn single_component(s: Seq<char>) -> bool {
    &&& !s.contains('/')
    &&& s != seq!['.']
    &&& s != seq!['.', '.']
}

pub open spec fn valid_file_name(s: Seq<char>) -> bool {
    s.len() > 0 && !s.contains('\0') && single_component(s)
}

fn find_char(s: &str, c: char) -> (r: bool)
    ensures
        r == s@.contains(c),
{
    let n = s.unicode_len();
    let mut i: usize = 0;
    while i < n
        invariant
            n == s@.len(),
            i <= n,
            forall|k: int| 0 <= k < i ==> s@[k] != c,
        decreases n - i,
    {
        if s.get_char(i) == c {
            return true;
        }
        i += 1;
    }
    false
}

/// Accepts a video file name that is non-empty, holds no NUL and is a single path component.
pub fn validate_file_name(s: &str) -> (r: Result<(), String>)
    ensures
        r is Ok <==> valid_file_name(s@),
        r matches Err(m) ==> m@ == (if s@.len() == 0 || s@.contains('\0') {
            "Invalid value: file_name"@
        } else {
            "Invalid value: file_name must only contain name"@
        }),
{
    proof {
        reveal_strlit("Invalid value: file_name");
        reveal_strlit("Invalid value: file_name must only contain name");
    }
    if s.unicode_len() == 0 || find_char(s, '\0') {
        return Err(String::from_str("Invalid value: file_name"));
    }
    let n = s.unicode_len();
    let dot = n == 1 && s.get_char(0) == '.';
    let dots = n == 2 && s.get_char(0) == '.' && s.get_char(1) == '.';
    if find_char(s, '/') || dot || dots {
        proof {
            if s@ == seq!['.'] {
                assert(dot);
            }
            if s@ == seq!['.', '.'] {
                assert(dots);
            }
            if dot {
                assert(s@ =~= seq!['.']);
            }
            if dots {
                assert(s@ =~= seq!['.', '.']);
            }
        }
        return Err(String::from_str("Invalid value: file_name must only contain name"));
    }
    proof {
        assert(s@ != seq!['.']);
        assert(s@ != seq!['.', '.']);
    }
    Ok(())
}

/// A program identity names a service, an event and a start instant.
pub fn validate_program_id(value: &wire::ProgramIdentity) -> (r: Result<(), String>)
    ensures
        r is Ok <==> value.service_id != 0 && value.event_id != 0 && value.start_at is Some,
        r matches Err(m) ==> m@ == (if value.service_id == 0 {
            "Invalid value: service_id"@
        } else if value.event_id == 0 {
            "Invalid value: event_id"@
        } else {
            "Missing value: start_at"@
        }),
{
    if value.service_id == 0 {
        return Err(String::from_str("Invalid value: service_id"));
    }
    if value.event_id == 0 {
        return Err(String::from_str("Invalid value: event_id"));
    }
    if value.start_at.is_none() {
        return Err(String::from_str("Missing value: start_at"));
    }
    Ok(())
}

pub fn validate_channel(value: &wire::Channel) -> (r: Result<(), String>)
    ensures
        r is Ok <==> value.channel@.len() > 0 && value.name@.len() > 0,
        r matches Err(m) ==> m@ == (if value.channel@.len() == 0 {
            "Invalid value: channel"@
        } else {
            "Invalid value: name"@
        }),
{
    if value.channel.as_str().unicode_len() == 0 {
        return Err(String::from_str("Invalid value: channel"));
    }
    if value.name.as_str().unicode_len() == 0 {
        return Err(String::from_str("Invalid value: name"));
    }
    Ok(())
}

pub open spec fn valid_channel(c: wire::Channel) -> bool {
    c.channel@.len() > 0 && c.name@.len() > 0
}

pub fn validate_service(value: &wire::Service) -> (r: Result<(), String>)
    ensures
        r is Ok <==> value.service_id != 0 && (value.channel matches Some(c) ==> valid_channel(c)),
{
    if value.service_id == 0 {
        return Err(String::from_str("Invalid value: service_id"));
    }
    match &value.channel {
        Some(c) => match validate_channel(c) {
            Ok(()) => Ok(()),
            Err(msg) => {
                let mut m = String::from_str("Violation in channel => ");
                m.append(msg.as_str());
                Err(m)
            },
        },
        None => Ok(()),
    }
}

/// A metadata key is non-empty and at most 255 bytes long.
pub fn validate_metadata_key(key: &str) -> (r: Result<(), String>)
    ensures
        r is Ok <==> key@.len() > 0 && key.len() <= MAX_METADATA_KEY_BYTES,
        r matches Err(m) ==> m@ == (if key@.len() == 0 {
            "Invalid value: key"@
        } else {
            "String too long: key"@
        }),
{
    if key.is_empty() {
        return Err(String::from_str("Invalid value: key"));
    }
    if key.len() > MAX_METADATA_KEY_BYTES {
        return Err(String::from_str("String too long: key"));
    }
    Ok(())
}

/// A metadata value is at most 1 MiB long.
pub fn validate_metadata_value(value: &str) -> (r: Result<(), String>)
    ensures
        r is Ok <==> value.len() <= MAX_METADATA_VALUE_BYTES,
        r matches Err(m) ==> m@ == "String too long: value"@,
{
    if value.len() > MAX_METADATA_VALUE_BYTES {
        return Err(String::from_str("String too long: value"));
    }
    Ok(())
}

} // verus!
