//! What is known of the time since the system started.

use vstd::prelude::*;
use vstd::string::StringExecFns;
use crate::util::text::byte_width;

verus! {

/// The time since the system started, whole and in parts, the parts also
/// with a zero in front.
pub struct UptimeInfo<T> {
    pub uptime_raw: T,
    pub days: T,
    pub hours: T,
    pub minutes: T,
    pub seconds: T,
    pub z_days: T,
    pub z_hours: T,
    pub z_minutes: T,
    pub z_seconds: T,
}

impl View for UptimeInfo<String> {
    type V = UptimeInfo<Seq<char>>;

    open spec fn view(&self) -> UptimeInfo<Seq<char>> {
        UptimeInfo {
            uptime_raw: self.uptime_raw@,
            days: self.days@,
            hours: self.hours@,
            minutes: self.minutes@,
            seconds: self.seconds@,
            z_days: self.z_days@,
            z_hours: self.z_hours@,
            z_minutes: self.z_minutes@,
            z_seconds: self.z_seconds@,
        }
    }
}

impl UptimeInfo<String> {
    /// Whether every field holds `text`.
    pub open spec fn all_are(&self, text: Seq<char>) -> bool {
        &&& self.uptime_raw@ == text
        &&& self.days@ == text
        &&& self.hours@ == text
        &&& self.minutes@ == text
        &&& self.seconds@ == text
        &&& self.z_days@ == text
        &&& self.z_hours@ == text
        &&& self.z_minutes@ == text
        &&& self.z_seconds@ == text
    }

    /// A record with `text` in every field.
    pub fn filled(text: &str) -> (r: Self)
        ensures
            r.all_are(text@),
    {
        UptimeInfo {
            uptime_raw: text.to_owned(),
            days: text.to_owned(),
            hours: text.to_owned(),
            minutes: text.to_owned(),
            seconds: text.to_owned(),
            z_days: text.to_owned(),
            z_hours: text.to_owned(),
            z_minutes: text.to_owned(),
            z_seconds: text.to_owned(),
        }
    }
}

/// A count with a zero in front where it is a single byte long.
pub open spec fn prefixed(s: Seq<char>) -> Seq<char> {
    if byte_width(s) == 1 {
        seq!['0'] + s
    } else {
        s
    }
}

/// Puts a zero in front of a count of one digit.
pub fn time_prefix(s: String) -> (r: String)
    ensures
        r@ == prefixed(s@),
{
    if s.as_str().len() == 1 {
        let mut new = String::new();
        new.push('0');
        new.append(s.as_str());
        assert(new@ == seq!['0'] + s@);
        return new;
    }
    s
}

} // verus!
