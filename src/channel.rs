//! Channel timing data carried in event headers.

use vstd::prelude::*;

use crate::event::EslEvent;
use crate::headers::lookup;
use crate::numbers::{parse_i64, signed_value};
use crate::text::chars_of;

verus! {

/// Channel timestamps in epoch microseconds, read from headers named
/// `{prefix}-{suffix}`. `Some(0)` means the moment has not come; `None`
/// means the header is absent or not a number.
#[derive(Debug, Clone, Copy, PartialEq, Eq, Default)]
pub struct ChannelTimetable {
    /// When the caller profile was created.
    pub profile_created: Option<i64>,
    /// When the channel was created.
    pub created: Option<i64>,
    /// When the channel was answered.
    pub answered: Option<i64>,
    /// When early media was signalled.
    pub progress: Option<i64>,
    /// When media-bearing early media arrived.
    pub progress_media: Option<i64>,
    /// When the channel hung up.
    pub hungup: Option<i64>,
    /// When the channel was transferred.
    pub transferred: Option<i64>,
    /// When the channel was resurrected.
    pub resurrected: Option<i64>,
    /// When the channel was bridged.
    pub bridged: Option<i64>,
    /// Time of the last hold.
    pub last_hold: Option<i64>,
    /// Accumulated hold time in microseconds.
    pub hold_accum: Option<i64>,
}

/// The `i64` that header `{prefix}-{suffix}` holds, if any.
pub open spec fn stamp(h: Map<Seq<char>, Seq<char>>, prefix: Seq<char>, suffix: Seq<char>) -> Option<i64> {
    match lookup(h, prefix + "-"@ + suffix) {
        Some(v) => match signed_value(v) {
            Some(n) => if i64::MIN <= n <= i64::MAX { Some(n as i64) } else { None },
            None => None,
        },
        None => None,
    }
}

/// The timetable that headers `h` give under `prefix`, if any field parses.
pub open spec fn timetable_of(h: Map<Seq<char>, Seq<char>>, prefix: Seq<char>) -> Option<ChannelTimetable> {
    let t = ChannelTimetable {
        profile_created: stamp(h, prefix, "Profile-Created-Time"@),
        created: stamp(h, prefix, "Channel-Created-Time"@),
        answered: stamp(h, prefix, "Channel-Answered-Time"@),
        progress: stamp(h, prefix, "Channel-Progress-Time"@),
        progress_media: stamp(h, prefix, "Channel-Progress-Media-Time"@),
        hungup: stamp(h, prefix, "Channel-Hangup-Time"@),
        transferred: stamp(h, prefix, "Channel-Transfer-Time"@),
        resurrected: stamp(h, prefix, "Channel-Resurrect-Time"@),
        bridged: stamp(h, prefix, "Channel-Bridged-Time"@),
        last_hold: stamp(h, prefix, "Channel-Last-Hold"@),
        hold_accum: stamp(h, prefix, "Channel-Hold-Accum"@),
    };
    if t.profile_created is Some || t.created is Some || t.answered is Some || t.progress is Some || t.progress_media is Some || t.hungup is Some || t.transferred is Some || t.resurrected is Some || t.bridged is Some || t.last_hold is Some || t.hold_accum is Some {
        Some(t)
    } else {
        None
    }
}

/// Reads header `{prefix}-{suffix}` as an `i64`.
fn read_stamp(event: &EslEvent, prefix: &str, suffix: &str) -> (r: Option<i64>)
    ensures
        r == stamp(event.headers@, prefix@, suffix@),
{
    let mut name = String::from_str(prefix);
    name.append("-");
    name.append(suffix);
    match event.header(name.as_str()) {
        Some(v) => {
            let c = chars_of(v.as_str());
            assert(c@.subrange(0, c@.len() as int) =~= c@);
            parse_i64(&c, 0, c.len())
        },
        None => None,
    }
}

impl ChannelTimetable {
    /// The timetable under `prefix`; `None` when no field parses.
    pub fn from_event(event: &EslEvent, prefix: &str) -> (r: Option<Self>)
        ensures
            r == timetable_of(event.headers@, prefix@),
    {
        let t = ChannelTimetable {
            profile_created: read_stamp(event, prefix, "Profile-Created-Time"),
            created: read_stamp(event, prefix, "Channel-Created-Time"),
            answered: read_stamp(event, prefix, "Channel-Answered-Time"),
            progress: read_stamp(event, prefix, "Channel-Progress-Time"),
            progress_media: read_stamp(event, prefix, "Channel-Progress-Media-Time"),
            hungup: read_stamp(event, prefix, "Channel-Hangup-Time"),
            transferred: read_stamp(event, prefix, "Channel-Transfer-Time"),
            resurrected: read_stamp(event, prefix, "Channel-Resurrect-Time"),
            bridged: read_stamp(event, prefix, "Channel-Bridged-Time"),
            last_hold: read_stamp(event, prefix, "Channel-Last-Hold"),
            hold_accum: read_stamp(event, prefix, "Channel-Hold-Accum"),
        };
        if t.profile_created.is_some() || t.created.is_some() || t.answered.is_some() || t.progress.is_some() || t.progress_media.is_some() || t.hungup.is_some() || t.transferred.is_some() || t.resurrected.is_some() || t.bridged.is_some() || t.last_hold.is_some() || t.hold_accum.is_some() {
            Some(t)
        } else {
            None
        }
    }
}

impl EslEvent {
    /// The timetable under `prefix` (for example `Caller` or `Other-Leg`).
    pub fn timetable(&self, prefix: &str) -> (r: Option<ChannelTimetable>)
        ensures
            r == timetable_of(self.headers@, prefix@),
    {
        ChannelTimetable::from_event(self, prefix)
    }

    /// The timetable under `Caller`.
    pub fn caller_timetable(&self) -> (r: Option<ChannelTimetable>)
        ensures
            r == timetable_of(self.headers@, "Caller"@),
    {
        ChannelTimetable::from_event(self, "Caller")
    }

    /// The timetable under `Other-Leg`.
    pub fn other_leg_timetable(&self) -> (r: Option<ChannelTimetable>)
        ensures
            r == timetable_of(self.headers@, "Other-Leg"@),
    {
        ChannelTimetable::from_event(self, "Other-Leg")
    }
}

} // verus!
