//! UTC instants as (seconds, nanoseconds) pairs, with chrono doing the calendar work.

use vstd::prelude::*;

use chrono::{DateTime, Utc};

verus! {

/// The first second chrono can represent: January 1 of the year -262143.
pub const MIN_TIMESTAMP: i64 = -8334601228800;

/// The last second chrono can represent: December 31 of the year 262142, 23:59:59.
pub const MAX_TIMESTAMP: i64 = 8210266876799;

/// Whether chrono's `DateTime::<Utc>::from_timestamp` accepts the pair: the
/// second lies in chrono's date range, and the nanoseconds are below one
/// second, or below two seconds within the 59th second of a minute (a leap
/// second).
pub open spec fn chrono_accepts(secs: i64, nanos: u32) -> bool {
    &&& MIN_TIMESTAMP <= secs <= MAX_TIMESTAMP
    &&& nanos < 2_000_000_000
    &&& (nanos < 1_000_000_000 || secs % 60 == 59)
}

/// The text that chrono's `DateTime::to_rfc3339` writes for the instant.
pub uninterp spec fn rfc3339_text(secs: i64, nanos: u32) -> Seq<char>;

/// The text that chrono's `format("%Y%m%d%H%M%S")` writes for the instant.
pub uninterp spec fn compact_stamp_text(secs: i64, nanos: u32) -> Seq<char>;

/// What chrono's `FromStr for DateTime<Utc>` reads from a text, as (seconds, nanoseconds).
pub uninterp spec fn parsed_utc(text: Seq<char>) -> Option<(i64, u32)>;

/// An instant as chrono represents it in UTC: whole seconds since the Unix epoch
/// and the nanoseconds past them (above 999_999_999 only inside a leap second).
#[derive(Clone, Copy, Debug, PartialEq, Eq, Structural)]
pub struct UtcTime {
    secs: i64,
    nanos: u32,
}

impl UtcTime {
    #[verifier::type_invariant]
    spec fn well_formed(self) -> bool {
        chrono_accepts(self.secs, self.nanos)
    }

    pub closed spec fn secs_of(self) -> i64 {
        self.secs
    }

    pub closed spec fn nanos_of(self) -> u32 {
        self.nanos
    }

    /// Seconds since the Unix epoch.
    pub fn timestamp(&self) -> (r: i64)
        ensures
            r == self.secs_of(),
    {
        self.secs
    }

    /// Nanoseconds past the second.
    pub fn subsec_nanos(&self) -> (r: u32)
        ensures
            r == self.nanos_of(),
    {
        self.nanos
    }

    /// The instant at `secs` seconds and `nanos` nanoseconds after the epoch,
    /// when chrono can represent it (as chrono's `DateTime::from_timestamp`).
    pub fn from_timestamp(secs: i64, nanos: u32) -> (r: Option<UtcTime>)
        ensures
            r is Some <==> chrono_accepts(secs, nanos),
            r matches Some(t) ==> t.secs_of() == secs && t.nanos_of() == nanos,
    {
        if accepted(secs, nanos) {
            Some(UtcTime { secs, nanos })
        } else {
            None
        }
    }

}

/// chrono's `DateTime::<Utc>::from_timestamp`: whether it gives an instant for
/// the pair.
#[verifier::external_body]
fn accepted(secs: i64, nanos: u32) -> (r: bool)
    ensures
        r == chrono_accepts(secs, nanos),
{
    DateTime::<Utc>::from_timestamp(secs, nanos).is_some()
}

/// std's `SystemTime`, a reading of the system clock.
#[verifier::external_type_specification]
#[verifier::external_body]
pub struct ExSystemTime(std::time::SystemTime);

/// std's `SystemTime::now`: the system clock's reading; nothing is known of it.
#[verifier::external_body]
fn clock_reading() -> (t: std::time::SystemTime) {
    std::time::SystemTime::now()
}

/// std's `SystemTime::duration_since(UNIX_EPOCH)`, as whole seconds and the
/// nanoseconds past them (below one second, as `Duration::subsec_nanos` is);
/// none when the reading is before the epoch.
#[verifier::external_body]
fn since_unix_epoch(t: &std::time::SystemTime) -> (r: Option<(u64, u32)>)
    ensures
        r matches Some(p) ==> p.1 < 1_000_000_000,
{
    match t.duration_since(std::time::UNIX_EPOCH) {
        Ok(d) => Some((d.as_secs(), d.subsec_nanos())),
        Err(_) => None,
    }
}

/// chrono's `DateTime::to_rfc3339` of the instant.
#[verifier::external_body]
fn rfc3339_of(secs: i64, nanos: u32) -> (s: String)
    requires
        chrono_accepts(secs, nanos),
    ensures
        s@ == rfc3339_text(secs, nanos),
{
    match DateTime::<Utc>::from_timestamp(secs, nanos) {
        Some(d) => d.to_rfc3339(),
        None => String::new(),
    }
}

/// Every character is an ASCII digit or a sign (the year of a stamp outside
/// 0000 to 9999 carries one).
pub open spec fn stamp_chars(s: Seq<char>) -> bool {
    forall|i: int| 0 <= i < s.len() ==> ('0' <= #[trigger] s[i] <= '9') || s[i] == '+' || s[i] == '-'
}

/// chrono's `format("%Y%m%d%H%M%S")` of the instant: zero-padded numbers, the
/// year with a sign when it needs one.
#[verifier::external_body]
fn compact_stamp_of(secs: i64, nanos: u32) -> (s: String)
    requires
        chrono_accepts(secs, nanos),
    ensures
        s@ == compact_stamp_text(secs, nanos),
        stamp_chars(s@),
{
    match DateTime::<Utc>::from_timestamp(secs, nanos) {
        Some(d) => d.format("%Y%m%d%H%M%S").to_string(),
        None => String::new(),
    }
}

/// chrono's `FromStr for DateTime<Utc>`, as (seconds, nanoseconds) of the
/// instant read; what it reads is an instant chrono accepts.
#[verifier::external_body]
fn parse_parts(text: &str) -> (r: Option<(i64, u32)>)
    ensures
        r == parsed_utc(text@),
        r matches Some(p) ==> chrono_accepts(p.0, p.1),
{
    match text.parse::<DateTime<Utc>>() {
        Ok(d) => Some((d.timestamp(), d.timestamp_subsec_nanos())),
        Err(_) => None,
    }
}

/// Strict order of instants (chrono's `DateTime` order).
pub open spec fn time_lt(a: UtcTime, b: UtcTime) -> bool {
    a.secs_of() < b.secs_of() || (a.secs_of() == b.secs_of() && a.nanos_of() < b.nanos_of())
}

/// Same instant.
pub open spec fn time_eq(a: UtcTime, b: UtcTime) -> bool {
    a.secs_of() == b.secs_of() && a.nanos_of() == b.nanos_of()
}

/// `a < b` on instants.
pub fn is_before(a: &UtcTime, b: &UtcTime) -> (r: bool)
    ensures
        r == time_lt(*a, *b),
{
    let (sa, sb) = (a.timestamp(), b.timestamp());
    sa < sb || (sa == sb && a.subsec_nanos() < b.subsec_nanos())
}

/// `a == b` on instants.
pub fn same_instant(a: &UtcTime, b: &UtcTime) -> (r: bool)
    ensures
        r == time_eq(*a, *b),
{
    a.timestamp() == b.timestamp() && a.subsec_nanos() == b.subsec_nanos()
}

/// The current instant, read from the system clock. A clock that reads
/// before the Unix epoch, or beyond the instants chrono can represent, gives
/// the epoch itself. Either way the instant is not before the epoch.
pub fn now_utc() -> (t: UtcTime)
    ensures
        t.secs_of() >= 0,
{
    let reading = clock_reading();
    match since_unix_epoch(&reading) {
        Some((secs, nanos)) => {
            if secs <= MAX_TIMESTAMP as u64 {
                let s = secs as i64;
                if accepted(s, nanos) {
                    return UtcTime { secs: s, nanos };
                }
            }
            UtcTime { secs: 0, nanos: 0 }
        },
        None => UtcTime { secs: 0, nanos: 0 },
    }
}

/// The RFC 3339 text of an instant.
pub fn to_rfc3339(t: &UtcTime) -> (s: String)
    ensures
        s@ == rfc3339_text(t.secs_of(), t.nanos_of()),
{
    proof {
        use_type_invariant(t);
    }
    rfc3339_of(t.secs, t.nanos)
}

/// The `YYYYMMDDHHMMSS` text of an instant.
pub fn compact_stamp(t: &UtcTime) -> (s: String)
    ensures
        s@ == compact_stamp_text(t.secs_of(), t.nanos_of()),
        stamp_chars(s@),
{
    proof {
        use_type_invariant(t);
    }
    compact_stamp_of(t.secs, t.nanos)
}

/// Reads an instant from text.
pub fn parse_utc(text: &str) -> (r: Option<UtcTime>)
    ensures
        r matches Some(t) ==> parsed_utc(text@) == Some((t.secs_of(), t.nanos_of())),
        r is None ==> parsed_utc(text@) is None,
{
    match parse_parts(text) {
        Some((secs, nanos)) => Some(UtcTime { secs, nanos }),
        None => None,
    }
}

/// Sort key of an optional instant: absent sorts before every instant.
pub open spec fn opt_time_key(t: Option<UtcTime>) -> Seq<i128> {
    match t {
        None => seq![0i128],
        Some(x) => seq![1i128, x.secs_of() as i128, x.nanos_of() as i128],
    }
}

/// Sort keys follow time: a later instant has a greater key, equal instants
/// have equal keys, and an absent time sorts before every instant.
pub proof fn law_time_key_follows_time(a: UtcTime, b: UtcTime)
    ensures
        time_lt(a, b) ==> crate::sorting::key_lt(opt_time_key(Some(a)), opt_time_key(Some(b))),
        time_eq(a, b) ==> opt_time_key(Some(a)) == opt_time_key(Some(b)),
        crate::sorting::key_lt(opt_time_key(None), opt_time_key(Some(a))),
        time_lt(a, b) ==> crate::sorting::key_lt(time_key(a), time_key(b)),
{
    reveal_with_fuel(crate::sorting::key_lt, 4);
    let ka = opt_time_key(Some(a));
    let kb = opt_time_key(Some(b));
    if time_lt(a, b) {
        assert(ka.drop_first() =~= seq![a.secs_of() as i128, a.nanos_of() as i128]);
        assert(kb.drop_first() =~= seq![b.secs_of() as i128, b.nanos_of() as i128]);
        if a.secs_of() == b.secs_of() {
            assert(ka.drop_first().drop_first() =~= seq![a.nanos_of() as i128]);
            assert(kb.drop_first().drop_first() =~= seq![b.nanos_of() as i128]);
            assert(time_key(a).drop_first() =~= seq![a.nanos_of() as i128]);
            assert(time_key(b).drop_first() =~= seq![b.nanos_of() as i128]);
        }
    }
    if time_eq(a, b) {
        assert(ka =~= kb);
    }
}

pub fn opt_time_key_exec(t: &Option<UtcTime>) -> (k: Vec<i128>)
    ensures
        k@ == opt_time_key(*t),
{
    let mut k: Vec<i128> = Vec::new();
    match t {
        None => {
            k.push(0);
        },
        Some(x) => {
            k.push(1);
            k.push(x.timestamp() as i128);
            k.push(x.subsec_nanos() as i128);
        },
    }
    assert(k@ =~= opt_time_key(*t));
    k
}

/// Sort key of an instant.
pub open spec fn time_key(t: UtcTime) -> Seq<i128> {
    seq![t.secs_of() as i128, t.nanos_of() as i128]
}

pub fn time_key_exec(t: &UtcTime) -> (k: Vec<i128>)
    ensures
        k@ == time_key(*t),
{
    let mut k: Vec<i128> = Vec::new();
    k.push(t.timestamp() as i128);
    k.push(t.subsec_nanos() as i128);
    assert(k@ =~= time_key(*t));
    k
}

} // verus!
