//! Conditions: conjunctions of typed matchers over a program and one of its videos.
use vstd::prelude::*;
use crate::channel_filter::ChannelType;
use crate::condition_ranges::{DateTimeRange, Int64Range};
use crate::literal_or_regex::{Int32OrRegex, StringOrRegex};
use crate::model::{Channel, Program, Timestamp, Video};
use crate::text::same_text;

verus! {

/// One matcher, keyed by the attribute it reads.
#[derive(Debug)]
pub enum Matcher {
    Title(StringOrRegex),
    Description(StringOrRegex),
    NetworkId(Int32OrRegex),
    ServiceId(Int32OrRegex),
    EventId(Int32OrRegex),
    ServiceName(StringOrRegex),
    ChannelName(StringOrRegex),
    ChannelType(ChannelType),
    StartAt(DateTimeRange),
    VideoTotalLength(Int64Range),
    VideoMimeType(StringOrRegex),
    VideoProviderId(StringOrRegex),
}

pub open spec fn channel_of(p: Program) -> Option<Channel> {
    match p.service {
        Some(s) => s.channel,
        None => None,
    }
}

/// Whether `m` accepts program `p` and video `v`, the program starting at wall-clock second
/// `local` of the local time zone.
pub open spec fn matcher_holds(m: Matcher, p: Program, v: Video, local: Option<i64>) -> bool {
    match m {
        Matcher::Title(x) => x.accepts(p.name@),
        Matcher::Description(x) => x.accepts(p.description@),
        Matcher::NetworkId(x) => x.accepts(p.network_id as i32),
        Matcher::ServiceId(x) => x.accepts(p.service_id as i32),
        Matcher::EventId(x) => x.accepts(p.event_id as i32),
        Matcher::ServiceName(x) => match p.service {
            Some(s) => x.accepts(s.name@),
            None => false,
        },
        Matcher::ChannelName(x) => match channel_of(p) {
            Some(c) => x.accepts(c.name@),
            None => false,
        },
        Matcher::ChannelType(x) => match channel_of(p) {
            Some(c) => x.values@.contains(c.channel_type),
            None => false,
        },
        Matcher::StartAt(x) => match local {
            Some(l) => x.min <= l <= x.max,
            None => false,
        },
        Matcher::VideoTotalLength(x) => v.total_length <= i64::MAX && x.min <= v.total_length
            <= x.max,
        Matcher::VideoMimeType(x) => x.accepts(v.mime_type@),
        Matcher::VideoProviderId(x) => x.accepts(v.provider_id@),
    }
}

/// Whether the value of `m` is well formed.
pub open spec fn matcher_valid(m: Matcher) -> bool {
    match m {
        Matcher::Title(x) | Matcher::Description(x) | Matcher::ServiceName(x)
        | Matcher::ChannelName(x) | Matcher::VideoMimeType(x) | Matcher::VideoProviderId(
            x,
        ) => !(x.value is InvalidRegex || x.value is InvalidLiteral),
        Matcher::NetworkId(x) | Matcher::ServiceId(x) | Matcher::EventId(x) => !(x.value
            is InvalidRegex || x.value is InvalidLiteral),
        Matcher::ChannelType(x) => x.invalid_values@.len() == 0,
        Matcher::StartAt(x) => x.error is None,
        Matcher::VideoTotalLength(x) => x.error is None,
    }
}

/// The attribute names a condition understands.
pub open spec fn known_key(key: Seq<char>) -> bool {
    key == "title"@ || key == "description"@ || key == "network_id"@ || key == "service_id"@
        || key == "event_id"@ || key == "service_name"@ || key == "channel_name"@ || key
        == "channel_type"@ || key == "start_at"@ || key == "video_total_length"@ || key
        == "video_mime_type"@ || key == "video_provider_id"@
}

/// `m` is the matcher that attribute `key` with value `value` makes.
pub open spec fn built_from(m: Matcher, key: Seq<char>, value: Seq<char>) -> bool {
    match m {
        Matcher::Title(x) => key == "title"@ && x.read_from(value),
        Matcher::Description(x) => key == "description"@ && x.read_from(value),
        Matcher::NetworkId(x) => key == "network_id"@ && x.read_from(value),
        Matcher::ServiceId(x) => key == "service_id"@ && x.read_from(value),
        Matcher::EventId(x) => key == "event_id"@ && x.read_from(value),
        Matcher::ServiceName(x) => key == "service_name"@ && x.read_from(value),
        Matcher::ChannelName(x) => key == "channel_name"@ && x.read_from(value),
        Matcher::ChannelType(x) => key == "channel_type"@ && x.read_from(value),
        Matcher::StartAt(x) => key == "start_at"@ && x.read_from(value),
        Matcher::VideoTotalLength(x) => key == "video_total_length"@ && x.read_from(value),
        Matcher::VideoMimeType(x) => key == "video_mime_type"@ && x.read_from(value),
        Matcher::VideoProviderId(x) => key == "video_provider_id"@ && x.read_from(value),
    }
}

/// First second of year 1 and last second of year 9999, counted from 1970-01-01T00:00:00Z: the
/// instants whose local offset is asked of the time zone.
pub const FIRST_SUPPORTED_SECOND: i64 = -62135596800;

pub const LAST_SUPPORTED_SECOND: i64 = 253402300799;

/// Relies on chrono's `DateTime::from_timestamp`, `TimeZone::offset_from_utc_datetime` of the
/// `Local` time zone and `FixedOffset::local_minus_utc`, which lies strictly between -86400 and
/// 86400 (`FixedOffset::east_opt`). The offset depends on the machine's time zone, so nothing
/// else is stated of it. The local time itself is not asked of chrono: adding the offset is
/// left to the caller, so no instant near the end of chrono's range can overflow there.
#[verifier::external_body]
fn local_offset_seconds(t: Timestamp) -> (r: Option<i32>)
    requires
        FIRST_SUPPORTED_SECOND <= t.seconds <= LAST_SUPPORTED_SECOND,
    ensures
        r matches Some(o) ==> -86400 < o < 86400,
{
    match chrono::DateTime::from_timestamp(t.seconds, 0) {
        Some(utc) => Some(
            chrono::TimeZone::offset_from_utc_datetime(&chrono::Local, &utc.naive_utc()).local_minus_utc(),
        ),
        None => None,
    }
}

/// The local wall-clock second at which the instant `t` falls, in this machine's time zone;
/// `None` for an instant outside years 1 to 9999.
pub fn local_clock(t: Timestamp) -> (r: Option<i64>)
    ensures
        !(FIRST_SUPPORTED_SECOND <= t.seconds <= LAST_SUPPORTED_SECOND) ==> r is None,
        r matches Some(l) ==> t.seconds - 86400 < l < t.seconds + 86400,
{
    if t.seconds < FIRST_SUPPORTED_SECOND || t.seconds > LAST_SUPPORTED_SECOND {
        return None;
    }
    match local_offset_seconds(t) {
        Some(o) => Some(t.seconds + o as i64),
        None => None,
    }
}

impl Matcher {
    pub fn validate(&self) -> (r: Result<(), String>)
        ensures
            r is Ok <==> matcher_valid(*self),
    {
        match self {
            Matcher::Title(x) | Matcher::Description(x) | Matcher::ServiceName(x)
            | Matcher::ChannelName(x) | Matcher::VideoMimeType(x) | Matcher::VideoProviderId(
                x,
            ) => x.validate(),
            Matcher::NetworkId(x) | Matcher::ServiceId(x) | Matcher::EventId(x) => x.validate(),
            Matcher::ChannelType(x) => x.validate(),
            Matcher::StartAt(x) => x.validate(),
            Matcher::VideoTotalLength(x) => x.validate(),
        }
    }

    pub fn matches(&self, p: &Program, v: &Video, local: Option<i64>) -> (r: bool)
        ensures
            r == matcher_holds(*self, *p, *v, local),
    {
        match self {
            Matcher::Title(x) => x.matches(p.name.as_str()),
            Matcher::Description(x) => x.matches(p.description.as_str()),
            Matcher::NetworkId(x) => x.matches(p.network_id as i32),
            Matcher::ServiceId(x) => x.matches(p.service_id as i32),
            Matcher::EventId(x) => x.matches(p.event_id as i32),
            Matcher::ServiceName(x) => match &p.service {
                Some(s) => x.matches(s.name.as_str()),
                None => false,
            },
            Matcher::ChannelName(x) => match &p.service {
                Some(s) => match &s.channel {
                    Some(c) => x.matches(c.name.as_str()),
                    None => false,
                },
                None => false,
            },
            Matcher::ChannelType(x) => match &p.service {
                Some(s) => match &s.channel {
                    Some(c) => x.matches(c.channel_type),
                    None => false,
                },
                None => false,
            },
            Matcher::StartAt(x) => match local {
                Some(l) => x.matches(l),
                None => false,
            },
            Matcher::VideoTotalLength(x) => {
                if v.total_length <= i64::MAX as u64 {
                    x.matches(v.total_length as i64)
                } else {
                    false
                }
            },
            Matcher::VideoMimeType(x) => x.matches(v.mime_type.as_str()),
            Matcher::VideoProviderId(x) => x.matches(v.provider_id.as_str()),
        }
    }
}

/// A conjunction of matchers; the empty condition holds of everything.
#[derive(Debug)]
pub struct Condition {
    pub matchers: Vec<Matcher>,
}

impl Condition {
    pub open spec fn holds(self, p: Program, v: Video, local: Option<i64>) -> bool {
        forall|i: int| 0 <= i < self.matchers@.len() ==> matcher_holds(#[trigger] self.matchers@[i], p, v, local)
    }

    pub open spec fn valid(self) -> bool {
        forall|i: int| 0 <= i < self.matchers@.len() ==> matcher_valid(#[trigger] self.matchers@[i])
    }

    pub fn new() -> (r: Condition)
        ensures
            r.matchers@.len() == 0,
    {
        Condition { matchers: Vec::new() }
    }

    /// Adds the matcher that attribute `key` with value `value` makes; an unknown attribute is
    /// refused.
    pub fn add(&mut self, key: &str, value: String) -> (r: Result<(), String>)
        ensures
            r is Ok <==> known_key(key@),
            r is Ok ==> final(self).matchers@.len() == old(self).matchers@.len() + 1
                && final(self).matchers@.drop_last() == old(self).matchers@ && built_from(
                final(self).matchers@.last(),
                key@,
                value@,
            ),
            r is Err ==> final(self).matchers@ == old(self).matchers@,
    {
        let m = if same_text(key, "title") {
            Matcher::Title(StringOrRegex::new(value))
        } else if same_text(key, "description") {
            Matcher::Description(StringOrRegex::new(value))
        } else if same_text(key, "network_id") {
            Matcher::NetworkId(Int32OrRegex::new(value))
        } else if same_text(key, "service_id") {
            Matcher::ServiceId(Int32OrRegex::new(value))
        } else if same_text(key, "event_id") {
            Matcher::EventId(Int32OrRegex::new(value))
        } else if same_text(key, "service_name") {
            Matcher::ServiceName(StringOrRegex::new(value))
        } else if same_text(key, "channel_name") {
            Matcher::ChannelName(StringOrRegex::new(value))
        } else if same_text(key, "channel_type") {
            Matcher::ChannelType(ChannelType::new(value))
        } else if same_text(key, "start_at") {
            Matcher::StartAt(DateTimeRange::new(value))
        } else if same_text(key, "video_total_length") {
            Matcher::VideoTotalLength(Int64Range::new(value))
        } else if same_text(key, "video_mime_type") {
            Matcher::VideoMimeType(StringOrRegex::new(value))
        } else if same_text(key, "video_provider_id") {
            Matcher::VideoProviderId(StringOrRegex::new(value))
        } else {
            let mut msg = String::from_str("unknown field `");
            msg.append(key);
            msg.append("`");
            return Err(msg);
        };
        self.matchers.push(m);
        proof {
            assert(self.matchers@.drop_last() =~= old(self).matchers@);
        }
        Ok(())
    }

    pub fn validate(&self) -> (r: Result<(), String>)
        ensures
            r is Ok <==> self.valid(),
    {
        let mut i: usize = 0;
        while i < self.matchers.len()
            invariant
                i <= self.matchers.len(),
                forall|k: int| 0 <= k < i ==> matcher_valid(#[trigger] self.matchers@[k]),
            decreases self.matchers.len() - i,
        {
            match self.matchers[i].validate() {
                Ok(()) => {},
                Err(e) => return Err(e),
            }
            i += 1;
        }
        Ok(())
    }

    /// Whether every matcher accepts the program and video, the program starting at
    /// wall-clock second `local` of the local time zone.
    pub fn matches_at(&self, p: &Program, v: &Video, local: Option<i64>) -> (r: bool)
        ensures
            r == self.holds(*p, *v, local),
    {
        let mut i: usize = 0;
        while i < self.matchers.len()
            invariant
                i <= self.matchers.len(),
                forall|k: int| 0 <= k < i ==> matcher_holds(#[trigger] self.matchers@[k], *p, *v, local),
            decreases self.matchers.len() - i,
        {
            if !self.matchers[i].matches(p, v, local) {
                return false;
            }
            i += 1;
        }
        true
    }

    /// Whether every matcher accepts the program and video, reading the program's start in
    /// the local time zone of this machine.
    pub fn matches(&self, p: &Program, v: &Video) -> (r: bool)
        ensures
            exists|local: Option<i64>| r == self.holds(*p, *v, local),
    {
        let local = local_clock(p.start_at);
        self.matches_at(p, v, local)
    }
}

} // verus!
