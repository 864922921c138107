//! Instants, their text form, and identifiers that need a source of chance.

use crate::text;
use vstd::prelude::*;

verus! {

/// An instant in UTC: whole seconds since 1970-01-01T00:00:00 and the nanoseconds within the
/// second. During a leap second the nanoseconds go on past the whole second.
#[derive(Clone, Copy, Debug, PartialEq, Eq, Structural)]
pub struct Timestamp {
    pub seconds: i64,
    pub nanos: u32,
}

/// The first and the last second that an instant can name: the years from 262144 BCE to 262142 CE.
pub const FIRST_SECOND: i64 = -8334601228800;

pub const LAST_SECOND: i64 = 8210266876799;

impl Timestamp {
    /// Whether this names an instant: its year can be written, and only a leap second has more
    /// nanoseconds than a second has.
    pub open spec fn is_instant(self) -> bool {
        &&& FIRST_SECOND <= self.seconds <= LAST_SECOND
        &&& self.nanos < 1_000_000_000 || (self.nanos < 2_000_000_000 && self.seconds % 60 == 59)
    }

    /// Whether this is a whole second but for what is finer than a microsecond. A leap second may be
    /// one too.
    pub open spec fn is_whole_second(self) -> bool {
        self.nanos % 1_000_000_000 < 1000
    }

    /// The instant without what is finer than a microsecond.
    pub open spec fn to_the_microsecond(self) -> Timestamp {
        Timestamp { seconds: self.seconds, nanos: (self.nanos / 1000 * 1000) as u32 }
    }
}

/// Whether a text has the form of a date and a time of day with six digits of the second's fraction,
/// such as `2023-11-14T22:13:20.250000`. A year outside 0 to 9999 is longer and has a sign.
pub open spec fn is_date_time_text(t: Seq<char>) -> bool {
    &&& t.len() >= 26
    &&& forall|i: int|
        t.len() - 22 <= i < t.len() ==> if i == t.len() - 22 || i == t.len() - 19 {
            #[trigger] t[i] == '-'
        } else if i == t.len() - 16 {
            t[i] == 'T'
        } else if i == t.len() - 13 || i == t.len() - 10 {
            t[i] == ':'
        } else if i == t.len() - 7 {
            t[i] == '.'
        } else {
            '0' <= t[i] <= '9'
        }
}

/// The text of an instant under a format in `strftime` notation.
pub uninterp spec fn instant_text(seconds: i64, nanos: u32, format: Seq<char>) -> Seq<char>;

/// The instant that a text names under a format in `strftime` notation, if it names one.
pub uninterp spec fn instant_of_text(t: Seq<char>, format: Seq<char>) -> Option<(i64, u32)>;

/// Date, time of day and six digits of the second's fraction.
pub const FORMAT_MICROSECONDS: &'static str = "%Y-%m-%dT%H:%M:%S%.6f";

/// Date and time of day.
pub const FORMAT_SECONDS: &'static str = "%Y-%m-%dT%H:%M:%S";

/// The offset that stands behind a stored instant.
pub const UTC_OFFSET: &'static str = "+00:00";

/// `chrono::Utc::now`: the current instant. Nothing is said of which one it is.
#[verifier::external_body]
pub(crate) fn now() -> (r: Timestamp)
    ensures
        r.is_instant(),
{
    let t = chrono::Utc::now();
    Timestamp { seconds: t.timestamp(), nanos: t.timestamp_subsec_nanos() }
}

/// `chrono::DateTime::format`: the text of an instant. In the microsecond format it is a date, a time
/// of day and six digits of the fraction, and reading it with
/// `chrono::NaiveDateTime::parse_from_str` gives the instant back without what is finer than a
/// microsecond: a year outside 0 to 9999 is written and read with its sign, and a leap second is
/// written and read as second 60. That function takes a text without a fraction too: for a whole
/// second, what stands before the fraction gives the instant back.
#[verifier::external_body]
fn format_instant(t: Timestamp, format: &str) -> (r: String)
    requires
        t.is_instant(),
        format@ == FORMAT_MICROSECONDS@,
    ensures
        r@ == instant_text(t.seconds, t.nanos, format@),
        is_date_time_text(r@),
        instant_of_text(r@, format@) == Some((t.seconds, t.to_the_microsecond().nanos)),
        t.is_whole_second() ==> r@.skip(r@.len() - 7) == ".000000"@ && instant_of_text(
            r@.take(r@.len() - 7),
            format@,
        ) == Some((t.seconds, t.to_the_microsecond().nanos)),
{
    chrono::DateTime::<chrono::Utc>::from_timestamp(t.seconds, t.nanos)
        .unwrap_or_default()
        .format(format)
        .to_string()
}

/// `chrono::NaiveDateTime::parse_from_str`: the instant that a text names, if it names one.
#[verifier::external_body]
fn parse_instant(t: &str, format: &str) -> (r: Option<(i64, u32)>)
    ensures
        r == instant_of_text(t@, format@),
        r matches Some((seconds, nanos)) ==> (Timestamp { seconds, nanos }).is_instant(),
{
    match chrono::NaiveDateTime::parse_from_str(t, format) {
        Ok(t) => Some((t.and_utc().timestamp(), t.and_utc().timestamp_subsec_nanos())),
        Err(_) => None,
    }
}

/// The text of an instant to the microsecond, without a mark of UTC.
pub open spec fn bare_stamp(t: Timestamp) -> Seq<char> {
    instant_text(t.seconds, t.nanos, FORMAT_MICROSECONDS@)
}

/// The text of an instant without the fraction of the second, and without a mark of UTC.
pub open spec fn whole_stamp(t: Timestamp) -> Seq<char> {
    bare_stamp(t).take(bare_stamp(t).len() - 7)
}

/// The stored text of an instant: to the microsecond, with the offset of UTC.
pub open spec fn stamp(t: Timestamp) -> Seq<char> {
    bare_stamp(t) + UTC_OFFSET@
}

/// What may stand behind an instant in UTC: the offset, a `Z`, or nothing.
pub open spec fn is_utc_mark(mark: Seq<char>) -> bool {
    mark == UTC_OFFSET@ || mark == "Z"@ || mark == ""@
}

/// A stored instant's text without the marks of UTC at its end.
pub open spec fn without_offset(t: Seq<char>) -> Seq<char> {
    text::without_suffixes(text::without_suffixes(t, UTC_OFFSET@), "Z"@)
}

/// What a stored text is read as: with or without a fraction, with or without a mark of UTC. A text
/// that names no instant is read as `fallback`.
pub open spec fn stamp_read(t: Seq<char>, fallback: Timestamp) -> Timestamp {
    match instant_of_text(without_offset(t), FORMAT_MICROSECONDS@) {
        Some((seconds, nanos)) => Timestamp { seconds, nanos },
        None => match instant_of_text(without_offset(t), FORMAT_SECONDS@) {
            Some((seconds, nanos)) => Timestamp { seconds, nanos },
            None => fallback,
        },
    }
}

/// Whether an instant is read back from its text to the microsecond, whatever mark of UTC stands
/// behind it, and that of a whole second also without the fraction.
pub open spec fn reads_back(t: Timestamp) -> bool {
    &&& forall|mark: Seq<char>, fallback: Timestamp|
        is_utc_mark(mark) ==> #[trigger] stamp_read(bare_stamp(t) + mark, fallback)
            == t.to_the_microsecond()
    &&& t.is_whole_second() ==> {
        &&& bare_stamp(t) == whole_stamp(t) + ".000000"@
        &&& forall|mark: Seq<char>, fallback: Timestamp|
            is_utc_mark(mark) ==> #[trigger] stamp_read(whole_stamp(t) + mark, fallback)
                == t.to_the_microsecond()
    }
}

/// A mark of UTC is taken off a text that ends like a time of day.
proof fn lemma_without_mark(t: Seq<char>, mark: Seq<char>)
    requires
        t.len() >= 6,
        '0' <= t.last() <= '9',
        t[t.len() - 6] != '+',
        is_utc_mark(mark),
    ensures
        without_offset(t + mark) == t,
{
    reveal_strlit("+00:00");
    reveal_strlit("Z");
    reveal_strlit("");
    let n = t.len() as int;
    assert(t.subrange(n - 6, n)[0] == t[n - 6]);
    assert(t.subrange(n - 1, n)[0] == t[n - 1]);
    assert(text::without_suffixes(t, UTC_OFFSET@) == t);
    assert(text::without_suffixes(t, "Z"@) == t);
    let marked = t + mark;
    if mark == UTC_OFFSET@ {
        assert(marked.subrange(n, n + 6) == UTC_OFFSET@);
        assert(marked.take(n) == t);
    } else if mark == "Z"@ {
        assert(marked.subrange(n - 5, n + 1)[5] == 'Z');
        assert(marked.subrange(n, n + 1) == "Z"@);
        assert(marked.take(n) == t);
    } else {
        assert(marked == t);
    }
}

/// The stored text of an instant. Read again, the instant comes back to the microsecond.
pub fn format_stamp(t: &Timestamp) -> (r: String)
    requires
        t.is_instant(),
    ensures
        r@ == stamp(*t),
        forall|fallback: Timestamp| #[trigger]
            stamp_read(r@, fallback) == t.to_the_microsecond(),
        reads_back(*t),
{
    let body = format_instant(*t, FORMAT_MICROSECONDS);
    let ghost bare = body@;
    let r = body.concat(UTC_OFFSET);
    proof {
        assert forall|mark: Seq<char>, fallback: Timestamp|
            is_utc_mark(mark) implies #[trigger] stamp_read(bare + mark, fallback)
            == t.to_the_microsecond() by {
            lemma_without_mark(bare, mark);
        }
        assert forall|fallback: Timestamp| #[trigger]
            stamp_read(r@, fallback) == t.to_the_microsecond() by {
            assert(r@ == bare + UTC_OFFSET@);
        }
        if t.is_whole_second() {
            let whole = bare.take(bare.len() - 7);
            assert(bare == whole + bare.skip(bare.len() - 7));
            assert forall|mark: Seq<char>, fallback: Timestamp|
                is_utc_mark(mark) implies #[trigger] stamp_read(whole + mark, fallback)
                == t.to_the_microsecond() by {
                assert(whole[whole.len() - 6] == bare[bare.len() - 13]);
                assert(whole.last() == bare[bare.len() - 8]);
                lemma_without_mark(whole, mark);
            }
        }
    }
    r
}

/// Reads a stored instant's text.
pub fn parse_stamp(t: &str, fallback: Timestamp) -> (r: Timestamp)
    ensures
        r == stamp_read(t@, fallback),
        fallback.is_instant() ==> r.is_instant(),
{
    let clean = text::trim_end_matches(text::trim_end_matches(t, UTC_OFFSET).as_str(), "Z");
    match parse_instant(clean.as_str(), FORMAT_MICROSECONDS) {
        Some((seconds, nanos)) => Timestamp { seconds, nanos },
        None => match parse_instant(clean.as_str(), FORMAT_SECONDS) {
            Some((seconds, nanos)) => Timestamp { seconds, nanos },
            None => fallback,
        },
    }
}

/// Whether a text has the form of a version 4 UUID: 36 characters, hyphens in four places and
/// lower-case hexadecimal digits in the others, the digits of version and variant among them.
pub open spec fn is_uuid_text(t: Seq<char>) -> bool {
    &&& t.len() == 36
    &&& t[14] == '4'
    &&& t[19] == '8' || t[19] == '9' || t[19] == 'a' || t[19] == 'b'
    &&& forall|i: int|
        0 <= i < 36 ==> if i == 8 || i == 13 || i == 18 || i == 23 {
            #[trigger] t[i] == '-'
        } else {
            '0' <= t[i] <= '9' || 'a' <= t[i] <= 'f'
        }
}

/// `uuid::Uuid::new_v4`, as text: a fresh random identifier. Nothing is said of which one it is.
#[verifier::external_body]
pub(crate) fn fresh_id() -> (r: String)
    ensures
        is_uuid_text(r@),
{
    uuid::Uuid::new_v4().to_string()
}

} // verus!
