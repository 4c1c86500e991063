//! Notifications and the store that keeps their history.

use vstd::prelude::*;
use std::collections::HashMap;
use vstd::std_specs::iter::IteratorSpec;
use crate::notify::config::PopupConfig;
use crate::text::{dec, push_dec};

verus! {

broadcast use vstd::std_specs::hash::group_hash_axioms;

/// Notification urgency level, as the freedesktop specification numbers it.
#[derive(Debug, Clone, Copy, PartialEq, Eq, Structural)]
pub enum Urgency {
    Low,
    Normal,
    Critical,
}

impl Default for Urgency {
    fn default() -> (r: Self)
        ensures
            r == Urgency::Normal,
    {
        Urgency::Normal
    }
}

/// The urgency a hint byte stands for: 0 is low, 2 is critical, anything
/// else is normal.
pub open spec fn urgency_of(v: u8) -> Urgency {
    if v == 0 {
        Urgency::Low
    } else if v == 2 {
        Urgency::Critical
    } else {
        Urgency::Normal
    }
}

impl From<u8> for Urgency {
    fn from(v: u8) -> (r: Self) {
        if v == 0 {
            Urgency::Low
        } else if v == 2 {
            Urgency::Critical
        } else {
            Urgency::Normal
        }
    }
}

impl vstd::std_specs::convert::FromSpecImpl<u8> for Urgency {
    open spec fn obeys_from_spec() -> bool {
        true
    }

    open spec fn from_spec(v: u8) -> Self {
        urgency_of(v)
    }
}

/// Raw image data from the notification hints.
#[derive(Debug, Clone)]
pub struct ImageData {
    pub width: i32,
    pub height: i32,
    pub rowstride: i32,
    pub has_alpha: bool,
    pub bits_per_sample: i32,
    pub channels: i32,
    pub data: Vec<u8>,
}

/// A stored notification. The time it arrived is kept in nanoseconds
/// since the Unix epoch.
#[derive(Debug, Clone)]
pub struct Notification {
    pub id: u32,
    pub app_name: String,
    pub app_icon: String,
    pub summary: String,
    pub body: String,
    /// Pairs of action key and label.
    pub actions: Vec<(String, String)>,
    pub urgency: Urgency,
    pub timestamp: i128,
    /// Progress value (0-100), when the hint gave one.
    pub progress: Option<i32>,
    /// Whether the notification has been read or dismissed.
    pub dismissed: bool,
    pub image_path: Option<String>,
    pub image_data: Option<ImageData>,
    pub category: Option<String>,
    pub desktop_entry: Option<String>,
    /// A transient notification is not kept in the history.
    pub transient: bool,
    /// A resident notification is not removed when an action is invoked.
    pub resident: bool,
    /// The timeout the sender asked for, in milliseconds.
    pub expire_timeout: Option<i32>,
}

#[verifier::external_type_specification]
#[verifier::external_body]
pub struct ExSystemTime(std::time::SystemTime);

#[verifier::external_type_specification]
#[verifier::external_body]
pub struct ExSystemTimeError(std::time::SystemTimeError);

/// `SystemTime::now`: the system clock's reading. Nothing is claimed of
/// it.
#[verifier::external_body]
fn clock_now() -> std::time::SystemTime {
    std::time::SystemTime::now()
}

/// `SystemTime::duration_since` with the Unix epoch: how long after the
/// epoch the reading is, or an error that holds how long before it.
/// Nothing is claimed of the values: they are the clock's.
#[verifier::external_body]
fn since_epoch(t: &std::time::SystemTime) -> std::result::Result<core::time::Duration, std::time::SystemTimeError> {
    t.duration_since(std::time::UNIX_EPOCH)
}

/// `SystemTimeError::duration`: how far the reading lies before the epoch.
#[verifier::external_body]
fn before_epoch(e: &std::time::SystemTimeError) -> core::time::Duration {
    e.duration()
}

/// `Duration::as_secs`: the whole seconds of a duration.
#[verifier::external_body]
fn duration_secs(d: &core::time::Duration) -> u64 {
    d.as_secs()
}

/// `Duration::subsec_nanos`: the nanoseconds past the whole seconds, which
/// the documentation says are always less than one billion.
#[verifier::external_body]
fn duration_subsec_nanos(d: &core::time::Duration) -> (r: u32)
    ensures
        r < 1_000_000_000,
{
    d.subsec_nanos()
}

/// The nanoseconds of a duration of `secs` whole seconds and `subsec`
/// nanoseconds.
pub open spec fn nanos_of(secs: u64, subsec: u32) -> int {
    secs * 1_000_000_000 + subsec
}

/// The current time in nanoseconds since the Unix epoch, negative for a
/// clock that reads before it.
fn now_nanos() -> (r: i128)
    ensures
        exists|secs: u64, subsec: u32| subsec < 1_000_000_000 && (r == nanos_of(secs, subsec) || r == -nanos_of(secs, subsec)),
{
    let now = clock_now();
    match since_epoch(&now) {
        Ok(d) => {
            let secs = duration_secs(&d);
            let subsec = duration_subsec_nanos(&d);
            let r: i128 = secs as i128 * 1_000_000_000 + subsec as i128;
            assert(r == nanos_of(secs, subsec));
            r
        },
        Err(e) => {
            let d = before_epoch(&e);
            let secs = duration_secs(&d);
            let subsec = duration_subsec_nanos(&d);
            let r: i128 = 0 - (secs as i128 * 1_000_000_000 + subsec as i128);
            assert(r == -nanos_of(secs, subsec));
            r
        },
    }
}

/// A month as chrono's `%b` writes it: always three letters.
pub open spec fn short_month(m: Seq<char>) -> bool {
    ||| m == "Jan"@ ||| m == "Feb"@ ||| m == "Mar"@ ||| m == "Apr"@
    ||| m == "May"@ ||| m == "Jun"@ ||| m == "Jul"@ ||| m == "Aug"@
    ||| m == "Sep"@ ||| m == "Oct"@ ||| m == "Nov"@ ||| m == "Dec"@
}

/// The value of a decimal digit, or `None` for another character.
pub open spec fn digit_value(c: char) -> Option<int> {
    if '0' as u32 <= c as u32 && c as u32 <= '9' as u32 {
        Some(c as u32 - '0' as u32)
    } else {
        None
    }
}

/// Two decimal digits at `i` of `t`, zero-padded, for a number from `lo`
/// to `hi`.
pub open spec fn two_digits_at(t: Seq<char>, i: int, lo: int, hi: int) -> bool {
    &&& digit_value(t[i]) is Some
    &&& digit_value(t[i + 1]) is Some
    &&& lo <= digit_value(t[i])->0 * 10 + digit_value(t[i + 1])->0 <= hi
}

/// A date and time as chrono writes `%b %d, %H:%M`, such as
/// `Jan 05, 14:03`: the month's three letters, the day (01 to 31), the
/// hour (00 to 23) and the minute (00 to 59), each of two digits.
pub open spec fn local_time_shape(t: Seq<char>) -> bool {
    &&& t.len() == 13
    &&& short_month(t.subrange(0, 3))
    &&& t[3] == ' '
    &&& two_digits_at(t, 4, 1, 31)
    &&& t[6] == ','
    &&& t[7] == ' '
    &&& two_digits_at(t, 8, 0, 23)
    &&& t[10] == ':'
    &&& two_digits_at(t, 11, 0, 59)
}

/// How `time_ago` writes a date and time: the month's short name, the
/// day, the hour and the minute.
pub const DATE_PATTERN: &'static str = "%b %d, %H:%M";

/// The first second chrono has a date for: January 1 of the year 262144
/// BCE (`NaiveDate::MIN`), in seconds since the Unix epoch.
pub const CHRONO_MIN_SECS: i64 = -8_334_601_228_800;

/// The last second chrono has a date for: December 31, 262142 CE, at
/// 23:59:59 (`NaiveDate::MAX`), in seconds since the Unix epoch.
pub const CHRONO_MAX_SECS: i64 = 8_210_266_876_799;

/// Whether chrono's `DateTime::from_timestamp` has a date for `secs`
/// seconds and `nanos` nanoseconds: the seconds within its range, and the
/// nanoseconds under a second, or under two in the last second of a minute
/// (a leap second).
pub open spec fn chrono_has_date(secs: int, nanos: int) -> bool {
    &&& CHRONO_MIN_SECS <= secs <= CHRONO_MAX_SECS
    &&& (nanos < 1_000_000_000 || (nanos < 2_000_000_000 && secs % 60 == 59))
}

/// What chrono writes for the instant `secs` seconds and `subsec`
/// nanoseconds past the Unix epoch, taken in UTC, by `format` with
/// `pattern`; none where chrono has no date for the instant.
pub uninterp spec fn formatted(secs: i64, subsec: u32, pattern: Seq<char>) -> Option<Seq<char>>;

/// chrono's `DateTime::from_timestamp` and, where there is a date, its
/// `format` with `pattern`. The pattern must be `DATE_PATTERN`: chrono
/// fails to write a pattern with an unknown specifier, and only this one is
/// known here. Claimed: the result is `formatted` of the arguments, a
/// function of them alone (UTC, no time zone); there is one exactly where
/// `from_timestamp` has a date (its documented range of seconds, and a
/// nanosecond part under a second, or under two for a leap second); and its
/// text has the shape chrono's documentation gives for these specifiers
/// (`%b` always three letters, `%d`, `%H` and `%M` zero-padded to two
/// digits within their ranges).
#[verifier::external_body]
fn format_instant(secs: i64, subsec: u32, pattern: &str) -> (r: Option<String>)
    requires
        pattern@ == DATE_PATTERN@,
    ensures
        r is Some <==> chrono_has_date(secs as int, subsec as int),
        r matches Some(t) ==> formatted(secs, subsec, pattern@) == Some(t@) && local_time_shape(t@),
        r is None ==> formatted(secs, subsec, pattern@) is None,
{
    match chrono::DateTime::from_timestamp(secs, subsec) {
        Some(t) => Some(t.format(pattern).to_string()),
        None => None,
    }
}

/// The machine's time-zone offset, in seconds to add to UTC, at the
/// instant `secs` seconds and `subsec` nanoseconds past the Unix epoch:
/// chrono's `DateTime::from_timestamp` taken to `chrono::Local`, and the
/// `local_minus_utc` of its offset. Claimed: there is one exactly where
/// `from_timestamp` has a date, and it is less than a day either way, as
/// every `FixedOffset` is. Which offset it is depends on the time zone and
/// is not claimed.
#[verifier::external_body]
fn local_offset(secs: i64, subsec: u32) -> (r: Option<i32>)
    ensures
        r is Some <==> chrono_has_date(secs as int, subsec as int),
        r matches Some(o) ==> -86_400 < o < 86_400,
{
    match chrono::DateTime::from_timestamp(secs, subsec) {
        Some(t) => Some(chrono::Offset::fix(t.with_timezone(&chrono::Local).offset()).local_minus_utc()),
        None => None,
    }
}

/// The whole seconds (rounded down) of an instant in nanoseconds since the
/// Unix epoch, and the nanoseconds past them; none where the seconds do
/// not fit an `i64`.
pub open spec fn epoch_split(nanos: int) -> Option<(i64, u32)> {
    let secs = nanos / 1_000_000_000;
    if i64::MIN <= secs <= i64::MAX {
        Some((secs as i64, (nanos % 1_000_000_000) as u32))
    } else {
        None
    }
}

/// The whole seconds (rounded down) and the nanoseconds past them of an
/// instant in nanoseconds since the Unix epoch; none where the seconds do
/// not fit an `i64`.
pub fn epoch_parts(nanos: i128) -> (r: Option<(i64, u32)>)
    ensures
        r == epoch_split(nanos as int),
        r matches Some(p) ==> nanos == p.0 * 1_000_000_000 + p.1 && p.1 < 1_000_000_000,
{
    if nanos >= 0 {
        let secs: i128 = nanos / 1_000_000_000;
        let subsec: i128 = nanos % 1_000_000_000;
        if secs > i64::MAX as i128 {
            return None;
        }
        Some((secs as i64, subsec as u32))
    } else {
        // nanos = -(m + 1) = -(q * 10^9 + r + 1): seconds -q - 1, and
        // 10^9 - 1 - r nanoseconds past them.
        let m: i128 = -(nanos + 1);
        let q: i128 = m / 1_000_000_000;
        let r: i128 = m % 1_000_000_000;
        let secs: i128 = -q - 1;
        proof {
            assert(nanos == secs * 1_000_000_000 + (999_999_999 - r));
            vstd::arithmetic::div_mod::lemma_fundamental_div_mod_converse(
                nanos as int, 1_000_000_000, secs as int, (999_999_999 - r) as int);
        }
        if secs < i64::MIN as i128 {
            return None;
        }
        Some((secs as i64, (999_999_999 - r) as u32))
    }
}

/// Whether there is a local date for an instant in nanoseconds since the
/// Unix epoch at an offset of `offset` seconds: its seconds fit an `i64`,
/// and, moved by the offset, still do and lie in chrono's range.
pub open spec fn local_date_exists(nanos: int, offset: int) -> bool {
    match epoch_split(nanos) {
        Some(p) => i64::MIN <= p.0 + offset <= i64::MAX && chrono_has_date(p.0 + offset, p.1 as int),
        None => false,
    }
}

/// The text of the local date and time of an instant in nanoseconds since
/// the Unix epoch, when the machine's offset there is `offset` seconds:
/// what chrono writes with `DATE_PATTERN` for the instant moved by the
/// offset; none where there is no such date.
pub open spec fn local_text(nanos: int, offset: int) -> Option<Seq<char>> {
    match epoch_split(nanos) {
        Some(p) => if i64::MIN <= p.0 + offset <= i64::MAX {
            formatted((p.0 + offset) as i64, p.1, DATE_PATTERN@)
        } else {
            None
        },
        None => None,
    }
}

/// The local date and time of an instant in nanoseconds since the Unix
/// epoch at an offset of `offset` seconds from UTC: chrono's text, with
/// `DATE_PATTERN`, for the instant's seconds moved by the offset.
pub fn local_time_at(nanos: i128, offset: i32) -> (r: Option<String>)
    ensures
        r is Some <==> local_date_exists(nanos as int, offset as int),
        r matches Some(t) ==> local_text(nanos as int, offset as int) == Some(t@) && local_time_shape(t@),
        r is None ==> local_text(nanos as int, offset as int) is None,
{
    let (secs, subsec) = match epoch_parts(nanos) {
        Some(p) => p,
        None => return None,
    };
    if (offset < 0 && secs < i64::MIN - offset as i64) || (offset > 0 && secs > i64::MAX - offset as i64) {
        return None;
    }
    let local = secs + offset as i64;
    format_instant(local, subsec, DATE_PATTERN)
}

/// Where `time_ago` has no date to show for a stamp: its seconds do not
/// fit an `i64`, chrono has no date for them, or the machine's offset
/// there (less than a day) moves them out of chrono's range.
pub open spec fn no_local_date(timestamp: int) -> bool {
    match epoch_split(timestamp) {
        Some(p) => !chrono_has_date(p.0 as int, p.1 as int) || exists|offset: int|
            -86_400 < offset < 86_400 && !#[trigger] local_date_exists(timestamp, offset),
        None => true,
    }
}

/// The local date and time of an instant in nanoseconds since the Unix
/// epoch: its seconds and nanoseconds, moved by the machine's offset there,
/// written by chrono with `DATE_PATTERN`.
fn local_time_of(nanos: i128) -> (r: Option<String>)
    ensures
        r is None ==> no_local_date(nanos as int),
        r matches Some(t) ==> local_time_shape(t@) && exists|offset: int|
            -86_400 < offset < 86_400 && #[trigger] local_text(nanos as int, offset) == Some(t@),
{
    let (secs, subsec) = match epoch_parts(nanos) {
        Some(p) => p,
        None => return None,
    };
    let offset = match local_offset(secs, subsec) {
        Some(o) => o,
        None => return None,
    };
    let r = local_time_at(nanos, offset);
    assert(r is None ==> !local_date_exists(nanos as int, offset as int));
    r
}

/// The text `time_ago` gives for a notification stamped `timestamp` when
/// the clock reads `now`: how long ago while under a day, else the local
/// date and time of the stamp, at an offset of less than a day; empty only
/// where there is no such date.
pub open spec fn time_text_at(timestamp: int, now: int, text: Seq<char>) -> bool {
    match relative_time(whole_seconds(now - timestamp)) {
        Some(t) => text == t,
        None => (text.len() == 0 && no_local_date(timestamp)) || (local_time_shape(text) && exists|offset: int|
            -86_400 < offset < 86_400 && #[trigger] local_text(timestamp, offset) == Some(text)),
    }
}

/// The timeout in milliseconds after which a popup goes: the one the
/// sender gave when positive; none (0) when the sender gave -1; otherwise
/// the configured one for the urgency.
pub open spec fn timeout_for(n: Notification, config: PopupConfig) -> u64 {
    if n.expire_timeout matches Some(t) && t > 0 {
        n.expire_timeout->0 as u64
    } else if n.expire_timeout == Some(-1i32) {
        0
    } else {
        match n.urgency {
            Urgency::Low => config.timeout_low,
            Urgency::Normal => config.timeout_normal,
            Urgency::Critical => config.timeout_critical,
        }
    }
}

/// The popup timeout: a positive timeout from the sender is kept as it
/// is; -1 from the sender means the popup never goes by itself (0);
/// otherwise the configured timeout for the notification's urgency is
/// used: `timeout_low` for a low one, `timeout_normal` for a normal one and
/// `timeout_critical` for a critical one.
pub proof fn lemma_timeout_by_urgency(n: Notification, config: PopupConfig)
    ensures
        n.expire_timeout matches Some(t) ==> (t > 0 ==> timeout_for(n, config) == t),
        n.expire_timeout == Some(-1i32) ==> timeout_for(n, config) == 0,
        !(n.expire_timeout matches Some(t) && t > 0) && n.expire_timeout != Some(-1i32) ==> {
            &&& n.urgency == Urgency::Low ==> timeout_for(n, config) == config.timeout_low
            &&& n.urgency == Urgency::Normal ==> timeout_for(n, config) == config.timeout_normal
            &&& n.urgency == Urgency::Critical ==> timeout_for(n, config) == config.timeout_critical
        },
{
}

/// Two notifications that differ only in urgency, neither with a timeout
/// of its own, get the same popup timeout only where the configuration
/// gives their urgencies the same one.
pub proof fn lemma_timeout_urgency_only(n: Notification, m: Notification, config: PopupConfig)
    requires
        n.expire_timeout is None,
        m.expire_timeout is None,
    ensures
        n.urgency == Urgency::Critical && m.urgency == Urgency::Normal
            ==> (timeout_for(n, config) == timeout_for(m, config) <==> config.timeout_critical == config.timeout_normal),
        n.urgency == Urgency::Critical && m.urgency == Urgency::Low
            ==> (timeout_for(n, config) == timeout_for(m, config) <==> config.timeout_critical == config.timeout_low),
        n.urgency == Urgency::Normal && m.urgency == Urgency::Low
            ==> (timeout_for(n, config) == timeout_for(m, config) <==> config.timeout_normal == config.timeout_low),
{
}

/// How long ago something happened, for `secs` whole seconds: `None` from
/// a day on.
pub open spec fn relative_time(secs: int) -> Option<Seq<char>> {
    if secs < 60 {
        Some("Just now"@)
    } else if secs / 60 < 60 {
        if secs / 60 == 1 {
            Some("1 min ago"@)
        } else {
            Some(dec((secs / 60) as nat) + " mins ago"@)
        }
    } else if secs / 3600 < 24 {
        if secs / 3600 == 1 {
            Some("1 hour ago"@)
        } else {
            Some(dec((secs / 3600) as nat) + " hours ago"@)
        }
    } else {
        None
    }
}

/// Whole seconds in `nanos` nanoseconds, truncated toward zero.
pub open spec fn whole_seconds(nanos: int) -> int {
    if nanos >= 0 {
        nanos / 1_000_000_000
    } else {
        -((-nanos) / 1_000_000_000)
    }
}

/// The text for a notification that came `secs` whole seconds ago, or
/// `None` from a day on.
pub fn relative_time_text(secs: i64) -> (r: Option<String>)
    ensures
        r matches Some(t) ==> relative_time(secs as int) == Some(t@),
        r is None ==> relative_time(secs as int) is None,
{
    if secs < 60 {
        return Some("Just now".to_string());
    }
    let m = secs / 60;
    if m < 60 {
        if m == 1 {
            return Some("1 min ago".to_string());
        }
        let mut t = String::new();
        push_dec(&mut t, m as u64);
        crate::text::push_str(&mut t, " mins ago");
        assert(t@ =~= dec((secs / 60) as nat) + " mins ago"@);
        return Some(t);
    }
    let h = secs / 3600;
    if h < 24 {
        if h == 1 {
            return Some("1 hour ago".to_string());
        }
        let mut t = String::new();
        push_dec(&mut t, h as u64);
        crate::text::push_str(&mut t, " hours ago");
        assert(t@ =~= dec((secs / 3600) as nat) + " hours ago"@);
        return Some(t);
    }
    None
}

/// Whether `n` is a fresh notification with the given fields: no actions,
/// normal urgency, no hints applied, not dismissed.
pub open spec fn is_fresh(
    n: Notification,
    id: u32,
    app_name: Seq<char>,
    app_icon: Seq<char>,
    summary: Seq<char>,
    body: Seq<char>,
) -> bool {
    &&& n.id == id
    &&& n.app_name@ == app_name
    &&& n.app_icon@ == app_icon
    &&& n.summary@ == summary
    &&& n.body@ == body
    &&& n.actions@.len() == 0
    &&& n.urgency == Urgency::Normal
    &&& n.progress is None
    &&& !n.dismissed
    &&& n.image_path is None
    &&& n.image_data is None
    &&& n.category is None
    &&& n.desktop_entry is None
    &&& !n.transient
    &&& !n.resident
    &&& n.expire_timeout is None
}

impl Notification {
    /// A new notification, stamped with the current time.
    pub fn new(id: u32, app_name: String, app_icon: String, summary: String, body: String) -> (r:
        Self)
        ensures
            is_fresh(r, id, app_name@, app_icon@, summary@, body@),
    {
        Notification {
            id,
            app_name,
            app_icon,
            summary,
            body,
            actions: Vec::new(),
            urgency: Urgency::Normal,
            timestamp: now_nanos(),
            progress: None,
            dismissed: false,
            image_path: None,
            image_data: None,
            category: None,
            desktop_entry: None,
            transient: false,
            resident: false,
            expire_timeout: None,
        }
    }
}

/// `new` keeps, of the notifications in `old`, those of the `cap` newest:
/// all of them when there are no more than `cap`; otherwise exactly `cap`,
/// none of them older than one that was dropped.
pub open spec fn keeps_newest(old: Map<u32, Notification>, new: Map<u32, Notification>, cap: nat) -> bool {
    &&& new.submap_of(old)
    &&& new.len() == (if old.len() <= cap { old.len() } else { cap })
    &&& forall|r: u32, k: u32|
        #![trigger old.contains_key(r), new.contains_key(k)]
        old.contains_key(r) && !new.contains_key(r) && new.contains_key(k) ==> old[r].timestamp
            <= new[k].timestamp
}

impl Notification {
    /// When the notification came, said relative to the time `now`
    /// (nanoseconds since the Unix epoch): `None` from a day on.
    pub fn time_ago_at(&self, now: i128) -> (r: Option<String>)
        ensures
            r matches Some(t) ==> relative_time(whole_seconds(now - self.timestamp)) == Some(t@),
            r is None ==> relative_time(whole_seconds(now - self.timestamp)) is None,
    {
        let ts = self.timestamp;
        let secs_wide: i128 = if now >= ts {
            if ts >= 0 || now <= i128::MAX + ts {
                (now - ts) / 1_000_000_000
            } else {
                // So far apart that it is more than a day.
                86_400
            }
        } else {
            if ts < 0 || now >= ts - i128::MAX {
                0 - ((ts - now) / 1_000_000_000)
            } else {
                // So far apart, and negative, that it reads as just now.
                -1
            }
        };
        if secs_wide >= 86_400 {
            return None;
        }
        if secs_wide < 60 {
            return Some("Just now".to_string());
        }
        relative_time_text(secs_wide as i64)
    }

    /// The text that says when the notification came: relative to the
    /// clock while under a day, else the local date and time. What it says
    /// depends on the clock and the time zone.
    pub fn time_ago(&self) -> (r: String)
        ensures
            exists|now: int| #[trigger] time_text_at(self.timestamp as int, now, r@),
    {
        let now = now_nanos();
        let r = match self.time_ago_at(now) {
            Some(t) => t,
            None => match local_time_of(self.timestamp) {
                Some(t) => t,
                None => String::new(),
            },
        };
        assert(time_text_at(self.timestamp as int, now as int, r@));
        r
    }

    /// The effective popup timeout in milliseconds.
    pub fn get_timeout(&self, config: &PopupConfig) -> (r: u64)
        ensures
            r == timeout_for(*self, *config),
    {
        if let Some(timeout) = self.expire_timeout {
            if timeout > 0 {
                return timeout as u64;
            }
            if timeout == -1 {
                return 0;
            }
        }
        match self.urgency {
            Urgency::Low => config.timeout_low,
            Urgency::Normal => config.timeout_normal,
            Urgency::Critical => config.timeout_critical,
        }
    }
}

/// The ids of the notifications that are not dismissed.
pub open spec fn unread_keys(m: Map<u32, Notification>) -> Set<u32> {
    unread_among(m, m.dom())
}

/// The ids in `s` whose notification in `m` is not dismissed.
pub open spec fn unread_among(m: Map<u32, Notification>, s: Set<u32>) -> Set<u32> {
    s.filter(|k: u32| !m[k].dismissed)
}

/// `n`, marked as read.
pub open spec fn marked_read(n: Notification) -> Notification {
    Notification { dismissed: true, ..n }
}

/// `r` lists the notifications of `m`, each once, newest first.
pub open spec fn lists_newest_first(m: Map<u32, Notification>, r: Seq<Notification>) -> bool {
    &&& forall|i: int, j: int| 0 <= i < j < r.len() ==> r[i].timestamp >= r[j].timestamp
    &&& exists|ks: Seq<u32>|
        {
            &&& ks.len() == r.len()
            &&& ks.no_duplicates()
            &&& forall|k: u32| m.contains_key(k) <==> ks.contains(k)
            &&& forall|i: int| 0 <= i < r.len() ==> #[trigger] r[i] == m[ks[i]]
        }
}

/// `HashMap::get_mut`: a mutable reference to the value under `k`, if
/// there is one. Claimed: the reference starts at the stored value, and the
/// map afterwards holds what was written through it; without the key,
/// nothing changes.
#[verifier::external_body]
fn map_get_mut<'a>(m: &'a mut HashMap<u32, Notification>, k: u32) -> (r: Option<&'a mut Notification>)
    ensures
        old(m)@.contains_key(k) <==> r is Some,
        r matches Some(v) ==> *v == old(m)@[k] && final(m)@ == old(m)@.insert(k, *final(v)),
        r is None ==> final(m)@ == old(m)@,
{
    m.get_mut(&k)
}

/// Notification storage: the history, keyed by notification id, and the
/// next id to hand out.
pub struct NotificationStore {
    notifications: HashMap<u32, Notification>,
    next_id: u32,
    max_history: usize,
}

impl View for NotificationStore {
    type V = Map<u32, Notification>;

    closed spec fn view(&self) -> Map<u32, Notification> {
        self.notifications@
    }
}

impl NotificationStore {
    /// The largest number of notifications kept.
    pub closed spec fn capacity(&self) -> nat {
        self.max_history as nat
    }

    /// The id that `next_id` hands out next.
    pub closed spec fn upcoming_id(&self) -> u32 {
        self.next_id
    }

    /// The store never holds more than its capacity.
    pub closed spec fn wf(&self) -> bool {
        &&& self.notifications@.dom().finite()
        &&& self.notifications@.len() <= self.max_history
    }

    /// A well-formed store holds finitely many notifications, no more than
    /// its capacity.
    pub proof fn lemma_wf(&self)
        requires
            self.wf(),
        ensures
            self@.dom().finite(),
            self@.len() <= self.capacity(),
    {
    }

    pub fn new(max_history: usize) -> (r: Self)
        ensures
            r@ == Map::<u32, Notification>::empty(),
            r.capacity() == max_history,
            r.upcoming_id() == 1,
            r.wf(),
    {
        NotificationStore { notifications: HashMap::new(), next_id: 1, max_history }
    }

    /// Hands out the next id; ids count up from 1 and wrap around.
    pub fn next_id(&mut self) -> (id: u32)
        ensures
            id == old(self).upcoming_id(),
            final(self).upcoming_id() == old(self).upcoming_id().wrapping_add(1),
            final(self)@ == old(self)@,
            final(self).capacity() == old(self).capacity(),
            final(self).wf() == old(self).wf(),
    {
        let id = self.next_id;
        self.next_id = self.next_id.wrapping_add(1);
        id
    }

    /// Removes a notification by id and returns it.
    pub fn remove(&mut self, id: u32) -> (r: Option<Notification>)
        requires
            old(self).wf(),
        ensures
            final(self).wf(),
            final(self)@ == old(self)@.remove(id),
            final(self).capacity() == old(self).capacity(),
            final(self).upcoming_id() == old(self).upcoming_id(),
            r == (if old(self)@.contains_key(id) { Some(old(self)@[id]) } else { None::<Notification> }),
    {
        let r = self.notifications.remove(&id);
        proof {
            if old(self)@.contains_key(id) {
                assert(old(self)@.remove(id).len() == old(self)@.len() - 1);
            } else {
                assert(old(self)@.remove(id) =~= old(self)@);
            }
        }
        r
    }

    /// The key of a notification that is no newer than any other, if any.
    fn oldest_key(&self) -> (r: Option<u32>)
        requires
            self.notifications@.dom().finite(),
        ensures
            r matches Some(k) ==> self@.contains_key(k) && forall|j: u32|
                #[trigger] self@.contains_key(j) ==> self@[k].timestamp <= self@[j].timestamp,
            r is None ==> self@.len() == 0,
    {
        let mut best: Option<u32> = None;
        let mut best_ts: i128 = 0;
        let ghost sq = vstd::std_specs::hash::spec_hash_map_iter(&self.notifications).remaining();
        for (k, v) in it: self.notifications.iter()
            invariant
                it.seq() == sq,
                best matches Some(bk) ==> self@.contains_key(bk) && self@[bk].timestamp == best_ts
                    && forall|j: int|
                    0 <= j < it.index() ==> best_ts <= (#[trigger] it.seq()[j]).1.timestamp,
                best is None ==> it.index() == 0,
        {
            if best.is_none() || v.timestamp < best_ts {
                best = Some(*k);
                best_ts = v.timestamp;
            }
        }
        proof {
            if best is Some {
                assert forall|j: u32| #[trigger] self@.contains_key(j) implies best_ts
                    <= self@[j].timestamp by {
                    assert(sq.contains((&j, &self@[j])));
                    let idx = choose|i: int| 0 <= i < sq.len() && sq[i] == (&j, &self@[j]);
                    assert(best_ts <= sq[idx].1.timestamp);
                }
            } else {
                assert(sq.len() == 0);
            }
        }
        best
    }

    /// Drops the oldest notifications until no more than the capacity are
    /// left.
    fn prune(&mut self)
        requires
            old(self).notifications@.dom().finite(),
        ensures
            final(self).wf(),
            keeps_newest(old(self)@, final(self)@, old(self).capacity()),
            final(self).capacity() == old(self).capacity(),
            final(self).upcoming_id() == old(self).upcoming_id(),
    {
        let ghost orig = self@;
        while self.notifications.len() > self.max_history
            invariant
                self.notifications@.dom().finite(),
                self.max_history == old(self).max_history,
                self.next_id == old(self).next_id,
                orig == old(self)@,
                self@.submap_of(orig),
                self@.len() >= (if orig.len() <= self.max_history { orig.len() } else { self.max_history as nat }),
                orig.len() > self.max_history ==> self@.len() >= self.max_history,
                orig.len() <= self.max_history ==> self@ == orig,
                forall|r: u32, k: u32|
                    #![trigger orig.contains_key(r), self@.contains_key(k)]
                    orig.contains_key(r) && !self@.contains_key(r) && self@.contains_key(k)
                        ==> orig[r].timestamp <= self@[k].timestamp,
            decreases self@.len(),
        {
            let k = self.oldest_key();
            match k {
                Some(k) => {
                    let ghost before = self@;
                    self.notifications.remove(&k);
                    assert(self@ == before.remove(k));
                    assert forall|r: u32, j: u32|
                        #![trigger orig.contains_key(r), self@.contains_key(j)]
                        orig.contains_key(r) && !self@.contains_key(r) && self@.contains_key(j)
                            implies orig[r].timestamp <= self@[j].timestamp by {
                        if r == k {
                            assert(before.contains_key(j));
                            assert(before[k].timestamp <= before[j].timestamp);
                        } else {
                            assert(before.contains_key(j));
                        }
                    }
                },
                None => {},
            }
        }
        proof {
            assert(self@.len() <= self.max_history);
        }
    }

    /// Adds or replaces a notification; a transient one is not kept. When
    /// the history is over its capacity, the oldest notifications go.
    pub fn insert(&mut self, notification: Notification)
        requires
            old(self).wf(),
        ensures
            final(self).wf(),
            final(self).capacity() == old(self).capacity(),
            final(self).upcoming_id() == old(self).upcoming_id(),
            notification.transient ==> final(self)@ == old(self)@,
            !notification.transient ==> keeps_newest(
                old(self)@.insert(notification.id, notification),
                final(self)@,
                old(self).capacity(),
            ),
    {
        if notification.transient {
            return;
        }
        let id = notification.id;
        self.notifications.insert(id, notification);
        self.prune();
    }

    /// The ids in the store, each once.
    fn keys_vec(&self) -> (v: Vec<u32>)
        ensures
            v@.no_duplicates(),
            forall|k: u32| self@.contains_key(k) <==> v@.contains(k),
    {
        let mut v: Vec<u32> = Vec::new();
        let ghost sq = vstd::std_specs::hash::spec_keys_iter(&self.notifications).remaining();
        for k in it: self.notifications.keys()
            invariant
                it.seq() == sq,
                v@.len() == it.index(),
                forall|j: int| 0 <= j < it.index() ==> v@[j] == *sq[j],
        {
            v.push(*k);
        }
        proof {
            assert(v@ =~= sq.unref());
            assert forall|k: u32| self@.contains_key(k) <==> v@.contains(k) by {
                assert(self@.dom().contains(k) <==> sq.unref().to_set().contains(k));
            }
            assert forall|i: int, j: int| 0 <= i < v@.len() && 0 <= j < v@.len() && i != j implies v@[i] != v@[j] by {
                assert(sq[i] != sq[j]);
            }
        }
        v
    }

    /// The number of notifications not yet read.
    pub fn unread_count(&self) -> (r: usize)
        requires
            self.wf(),
        ensures
            r == unread_keys(self@).len(),
    {
        let keys = self.keys_vec();
        let ghost m = self@;
        let ghost mut seen: Set<u32> = Set::empty();
        let mut count: usize = 0;
        let mut i: usize = 0;
        assert(unread_among(m, seen) =~= Set::empty());
        while i < keys.len()
            invariant
                i <= keys@.len(),
                keys@.no_duplicates(),
                forall|k: u32| m.contains_key(k) <==> keys@.contains(k),
                m == self@,
                seen.finite(),
                seen.len() == i,
                forall|k: u32| seen.contains(k) <==> exists|j: int| 0 <= j < i && keys@[j] == k,
                count as nat == unread_among(m, seen).len(),
                count <= i,
            decreases keys@.len() - i,
        {
            let k = keys[i];
            assert(!seen.contains(k)) by {
                if seen.contains(k) {
                    let j = choose|j: int| 0 <= j < i && keys@[j] == k;
                    assert(keys@[j] == keys@[i as int]);
                }
            }
            assert(keys@.contains(k));
            let n = self.notifications.get(&k);
            match n {
                Some(n) => {
                    if !n.dismissed {
                        assert(unread_among(m, seen.insert(k)) =~= unread_among(m, seen).insert(k));
                        count += 1;
                    } else {
                        assert(unread_among(m, seen.insert(k)) =~= unread_among(m, seen));
                    }
                },
                None => {},
            }
            proof {
                seen = seen.insert(k);
            }
            i += 1;
        }
        proof {
            assert(seen =~= m.dom()) by {
                assert forall|k: u32| seen.contains(k) <==> m.dom().contains(k) by {
                    if m.dom().contains(k) {
                        assert(keys@.contains(k));
                        let j = choose|j: int| 0 <= j < keys@.len() && keys@[j] == k;
                    }
                }
            }
        }
        count
    }

    /// Marks every notification as read.
    pub fn mark_all_read(&mut self)
        requires
            old(self).wf(),
        ensures
            final(self).wf(),
            final(self).capacity() == old(self).capacity(),
            final(self).upcoming_id() == old(self).upcoming_id(),
            final(self)@.dom() == old(self)@.dom(),
            forall|k: u32| #[trigger] final(self)@.contains_key(k) ==> final(self)@[k] == marked_read(old(self)@[k]),
    {
        let keys = self.keys_vec();
        let ghost orig = self@;
        let mut i: usize = 0;
        while i < keys.len()
            invariant
                i <= keys@.len(),
                keys@.no_duplicates(),
                forall|k: u32| orig.contains_key(k) <==> keys@.contains(k),
                self.notifications@.dom().finite(),
                self.max_history == old(self).max_history,
                self.next_id == old(self).next_id,
                orig == old(self)@,
                self@.dom() == orig.dom(),
                forall|k: u32| #[trigger] self@.contains_key(k) ==> self@[k] == (if exists|j: int| 0 <= j < i && keys@[j] == k { marked_read(orig[k]) } else { orig[k] }),
            decreases keys@.len() - i,
        {
            let k = keys[i];
            assert(keys@.contains(k));
            let ghost before = self@;
            let n = self.notifications.remove(&k);
            match n {
                Some(mut n) => {
                    n.dismissed = true;
                    self.notifications.insert(k, n);
                    assert(self@.dom() =~= orig.dom());
                    assert forall|x: u32| #[trigger] self@.contains_key(x) implies self@[x] == (if exists|j: int| 0 <= j < i + 1 && keys@[j] == x { marked_read(orig[x]) } else { orig[x] }) by {
                        if x == k {
                            assert(!exists|j: int| 0 <= j < i && keys@[j] == x) by {
                                if exists|j: int| 0 <= j < i && keys@[j] == x {
                                    let j = choose|j: int| 0 <= j < i && keys@[j] == x;
                                    assert(keys@[j] == keys@[i as int]);
                                }
                            }
                            assert(keys@[i as int] == x);
                            assert(self@[x] =~= marked_read(orig[x]));
                        } else {
                            if exists|j: int| 0 <= j < i + 1 && keys@[j] == x {
                                let j = choose|j: int| 0 <= j < i + 1 && keys@[j] == x;
                                assert(j < i);
                            }
                        }
                    }
                },
                None => {
                    assert(false);
                },
            }
            i += 1;
        }
        proof {
            assert forall|k: u32| #[trigger] self@.contains_key(k) implies self@[k] == marked_read(orig[k]) by {
                assert(keys@.contains(k));
                let j = choose|j: int| 0 <= j < keys@.len() && keys@[j] == k;
            }
        }
    }

    /// Removes every notification.
    pub fn clear_all(&mut self)
        requires
            old(self).wf(),
        ensures
            final(self).wf(),
            final(self)@ == Map::<u32, Notification>::empty(),
            final(self).capacity() == old(self).capacity(),
            final(self).upcoming_id() == old(self).upcoming_id(),
    {
        self.notifications.clear();
    }

    /// Removes the notifications that have been read.
    pub fn clear_dismissed(&mut self)
        requires
            old(self).wf(),
        ensures
            final(self).wf(),
            final(self)@ == old(self)@.restrict(unread_keys(old(self)@)),
            final(self).capacity() == old(self).capacity(),
            final(self).upcoming_id() == old(self).upcoming_id(),
    {
        let keys = self.keys_vec();
        let ghost orig = self@;
        let mut i: usize = 0;
        while i < keys.len()
            invariant
                i <= keys@.len(),
                keys@.no_duplicates(),
                forall|k: u32| orig.contains_key(k) <==> keys@.contains(k),
                self.notifications@.dom().finite(),
                self.max_history == old(self).max_history,
                self.next_id == old(self).next_id,
                orig == old(self)@,
                self@.submap_of(orig),
                self@.len() <= orig.len(),
                orig.len() <= self.max_history,
                forall|k: u32| orig.contains_key(k) ==> (self@.contains_key(k) <==> (!(exists|j: int| 0 <= j < i && keys@[j] == k) || !orig[k].dismissed)),
            decreases keys@.len() - i,
        {
            let k = keys[i];
            assert(keys@.contains(k));
            let dismissed = match self.notifications.get(&k) {
                Some(n) => n.dismissed,
                None => false,
            };
            let ghost before = self@;
            if dismissed {
                self.notifications.remove(&k);
                assert(self@.len() <= before.len());
            }
            assert forall|x: u32| orig.contains_key(x) implies (self@.contains_key(x) <==> (!(exists|j: int| 0 <= j < i + 1 && keys@[j] == x) || !orig[x].dismissed)) by {
                if x == k {
                    assert(keys@[i as int] == x);
                } else {
                    if exists|j: int| 0 <= j < i + 1 && keys@[j] == x {
                        let j = choose|j: int| 0 <= j < i + 1 && keys@[j] == x;
                        assert(j < i);
                    }
                }
            }
            i += 1;
        }
        proof {
            assert forall|k: u32| self@.contains_key(k) <==> orig.restrict(unread_keys(orig)).contains_key(k) by {
                if orig.contains_key(k) {
                    assert(keys@.contains(k));
                    let j = choose|j: int| 0 <= j < keys@.len() && keys@[j] == k;
                }
            }
            assert(self@ =~= orig.restrict(unread_keys(orig)));
        }
    }

    /// All notifications, newest first.
    pub fn all(&self) -> (r: Vec<&Notification>)
        ensures
            lists_newest_first(self@, r@.map_values(|n: &Notification| *n)),
    {
        let mut r: Vec<&Notification> = Vec::new();
        let ghost mut ks: Seq<u32> = seq![];
        let ghost sq = vstd::std_specs::hash::spec_hash_map_iter(&self.notifications).remaining();
        let ghost m = self@;
        for (k, v) in it: self.notifications.iter()
            invariant
                it.seq() == sq,
                sq.no_duplicates(),
                m == self@,
                ks.len() == r@.len(),
                ks.len() == it.index(),
                ks.no_duplicates(),
                forall|x: u32| ks.contains(x) <==> exists|j: int| 0 <= j < it.index() && *sq[j].0 == x,
                forall|i: int| 0 <= i < r@.len() ==> *r@[i] == m[ks[i]],
                forall|i: int, j: int| 0 <= i < j < r@.len() ==> r@[i].timestamp >= r@[j].timestamp,
        {
            let ghost idx = it.index();
            assert(m.contains_key(*sq[idx].0) && m[*sq[idx].0] == *sq[idx].1);
            let mut p: usize = 0;
            while p < r.len() && r[p].timestamp >= v.timestamp
                invariant
                    p <= r@.len(),
                    forall|q: int| 0 <= q < p ==> r@[q].timestamp >= v.timestamp,
                decreases r@.len() - p,
            {
                p += 1;
            }
            let ghost r0 = r@;
            assert(!ks.contains(*k)) by {
                if ks.contains(*k) {
                    let j = choose|j: int| 0 <= j < idx && *sq[j].0 == *k;
                    assert(m[*sq[j].0] == *sq[j].1);
                    assert(*sq[j].1 == *sq[idx].1);
                    assert(sq[j] == sq[idx]);
                }
            }
            r.insert(p, v);
            proof {
                let ks0 = ks;
                ks = ks.insert(p as int, *k);
                assert forall|i: int, j: int| 0 <= i < ks.len() && 0 <= j < ks.len() && i != j implies ks[i] != ks[j] by {
                    if i != p && j != p {
                        let i0 = if i < p { i } else { i - 1 };
                        let j0 = if j < p { j } else { j - 1 };
                        assert(ks[i] == ks0[i0] && ks[j] == ks0[j0]);
                    } else if i == p {
                        let j0 = if j < p { j } else { j - 1 };
                        assert(ks[j] == ks0[j0]);
                        assert(ks0.contains(ks0[j0]));
                    } else {
                        let i0 = if i < p { i } else { i - 1 };
                        assert(ks[i] == ks0[i0]);
                        assert(ks0.contains(ks0[i0]));
                    }
                }
                assert forall|x: u32| ks.contains(x) <==> exists|j: int| 0 <= j < idx + 1 && *sq[j].0 == x by {
                    if ks.contains(x) {
                        let i = choose|i: int| 0 <= i < ks.len() && ks[i] == x;
                        if i == p {
                            assert(*sq[idx].0 == x);
                        } else {
                            let i0 = if i < p { i } else { i - 1 };
                            assert(ks0[i0] == x);
                            assert(ks0.contains(x));
                            let j = choose|j: int| 0 <= j < idx && *sq[j].0 == x;
                        }
                    }
                    if exists|j: int| 0 <= j < idx + 1 && *sq[j].0 == x {
                        let j = choose|j: int| 0 <= j < idx + 1 && *sq[j].0 == x;
                        if j == idx {
                            assert(ks[p as int] == x);
                        } else {
                            assert(ks0.contains(x));
                            let i0 = choose|i0: int| 0 <= i0 < ks0.len() && ks0[i0] == x;
                            let i = if i0 < p { i0 } else { i0 + 1 };
                            assert(ks[i] == x);
                        }
                    }
                }
                assert forall|i: int, j: int| 0 <= i < j < r@.len() implies r@[i].timestamp >= r@[j].timestamp by {
                    if i < p && j == p {
                    } else if i == p && j > p {
                        assert(r@[j] == r0[j - 1]);
                        if p < r0.len() {
                            assert(r0[p as int].timestamp < v.timestamp);
                            assert(r0[p as int].timestamp >= r0[j - 1].timestamp);
                        }
                    } else {
                    }
                }
            }
        }
        proof {
            let rv = r@.map_values(|n: &Notification| *n);
            assert forall|x: u32| m.contains_key(x) <==> ks.contains(x) by {
                if m.contains_key(x) {
                    assert(sq.contains((&x, &m[x])));
                    let j = choose|j: int| 0 <= j < sq.len() && sq[j] == (&x, &m[x]);
                    assert(*sq[j].0 == x);
                }
                if ks.contains(x) {
                    let j = choose|j: int| 0 <= j < sq.len() && *sq[j].0 == x;
                    assert(m.contains_key(*sq[j].0));
                }
            }
            assert(forall|i: int| 0 <= i < rv.len() ==> #[trigger] rv[i] == m[ks[i]]);
        }
        r
    }

    /// A mutable reference to the notification with the given id.
    pub fn get_mut(&mut self, id: u32) -> (r: Option<&mut Notification>)
        requires
            old(self).wf(),
        ensures
            old(self)@.contains_key(id) <==> r is Some,
            r matches Some(v) ==> *v == old(self)@[id] && final(self)@ == old(self)@.insert(id, *final(v)),
            r is None ==> final(self)@ == old(self)@,
            final(self).wf(),
            final(self).capacity() == old(self).capacity(),
            final(self).upcoming_id() == old(self).upcoming_id(),
    {
        map_get_mut(&mut self.notifications, id)
    }

    /// The notification with the given id.
    pub fn get(&self, id: u32) -> (r: Option<&Notification>)
        ensures
            r == (if self@.contains_key(id) { Some(&self@[id]) } else { None::<&Notification> }),
    {
        self.notifications.get(&id)
    }
}


/// A read gives back what a write wrote: once a notification newer than
/// all that are stored is inserted into a store that keeps at least one,
/// the store holds it under its id.
pub proof fn lemma_insert_then_get(old: Map<u32, Notification>, new: Map<u32, Notification>, n: Notification, cap: nat)
    requires
        old.dom().finite(),
        cap > 0,
        forall|k: u32| #[trigger] old.contains_key(k) && k != n.id ==> old[k].timestamp < n.timestamp,
        keeps_newest(old.insert(n.id, n), new, cap),
    ensures
        new.contains_key(n.id),
        new[n.id] == n,
{
    let all = old.insert(n.id, n);
    assert(all.contains_key(n.id));
    assert(all.dom().finite());
    assert(all.len() >= 1) by {
        vstd::set_lib::lemma_set_empty_equivalency_len(all.dom());
        if all.len() == 0 {
            assert(all.dom().contains(n.id));
        }
    }
    if !new.contains_key(n.id) {
        assert(new.len() >= 1);
        assert(new.dom().finite()) by {
            vstd::set_lib::lemma_len_subset(new.dom(), all.dom());
        }
        vstd::set_lib::lemma_set_empty_equivalency_len(new.dom());
        let k = new.dom().choose();
        assert(new.dom().contains(k));
        assert(all.contains_key(k));
        assert(all[n.id].timestamp <= new[k].timestamp);
        assert(false);
    }
}

/// What pruning (and so inserting) keeps: of `k` notifications, the
/// smaller of `k` and the capacity are left, each as it was and each one
/// that was there before, and none that went is newer than one that
/// stayed.
pub proof fn lemma_pruning_keeps_newest(old: Map<u32, Notification>, new: Map<u32, Notification>, cap: nat)
    requires
        keeps_newest(old, new, cap),
    ensures
        new.len() == (if old.len() <= cap { old.len() } else { cap }),
        forall|k: u32| #[trigger] new.contains_key(k) ==> old.contains_key(k) && new[k] == old[k],
        forall|r: u32, k: u32|
            #![trigger old.contains_key(r), new.contains_key(k)]
            old.contains_key(r) && !new.contains_key(r) && new.contains_key(k) ==> old[r].timestamp <= new[k].timestamp,
{
}

/// After a notification is removed, the store no longer holds it.
pub proof fn lemma_remove_then_absent(m: Map<u32, Notification>, id: u32)
    ensures
        !m.remove(id).contains_key(id),
{
}

/// After every notification is marked read, none is unread.
pub proof fn lemma_mark_all_read_leaves_none_unread(old: Map<u32, Notification>, new: Map<u32, Notification>)
    requires
        new.dom() == old.dom(),
        forall|k: u32| #[trigger] new.contains_key(k) ==> new[k] == marked_read(old[k]),
    ensures
        unread_keys(new) == Set::<u32>::empty(),
{
    assert(unread_keys(new) =~= Set::<u32>::empty());
}

/// No more notifications are unread than are stored.
pub proof fn lemma_unread_at_most_stored(m: Map<u32, Notification>)
    requires
        m.dom().finite(),
    ensures
        unread_keys(m).len() <= m.len(),
{
    vstd::set_lib::lemma_len_subset(unread_keys(m), m.dom());
}

/// Clearing the read notifications keeps exactly the unread ones: all
/// that are left are unread, and none that was unread goes.
pub proof fn lemma_clear_dismissed_keeps_unread(m: Map<u32, Notification>)
    ensures
        forall|k: u32| #[trigger] m.restrict(unread_keys(m)).contains_key(k) ==> !m.restrict(unread_keys(m))[k].dismissed,
        unread_keys(m.restrict(unread_keys(m))) == unread_keys(m),
{
    assert(unread_keys(m.restrict(unread_keys(m))) =~= unread_keys(m));
}
} // verus!
