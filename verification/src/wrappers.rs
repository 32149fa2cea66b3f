//! The calls this library makes into other crates (`time`, `uuid`, `chrono`, `simsearch`),
//! each behind a small function whose contract states what the called crate provides.
//! Nothing here is proved: each contract is taken on trust from the called crate.

use vstd::prelude::*;
use crate::calendar::{valid_date, valid_now, valid_ymd, wall_seconds, Date, LocalNow};
use crate::clock::in_time_range;
use crate::store::{names_sorted, string_views};
use crate::time_ext::UtcDateTime;

verus! {

/// `c` is a lower-case hexadecimal digit.
pub open spec fn is_lower_hex(c: char) -> bool {
    (48 <= (c as u32) <= 57) || (97 <= (c as u32) <= 102)
}

/// `s` is the hyphenated lower-case text of a version 4 (random) UUID:
/// `xxxxxxxx-xxxx-4xxx-Vxxx-xxxxxxxxxxxx` where `V` is one of `8`, `9`, `a`, `b`.
pub open spec fn uuid_v4_text(s: Seq<char>) -> bool {
    &&& s.len() == 36
    &&& forall|i: int|
        0 <= i < 36 ==> if i == 8 || i == 13 || i == 18 || i == 23 {
            #[trigger] s[i] == '-'
        } else {
            is_lower_hex(s[i])
        }
    &&& s[14] == '4'
    &&& (s[19] == '8' || s[19] == '9' || s[19] == 'a' || s[19] == 'b')
}

/// A fresh random identifier: `uuid::Uuid::new_v4()` rendered by its `Display` impl, which
/// writes the hyphenated lower-case form. The version nibble is 4 and the variant bits are
/// `10`, as `new_v4` sets them; the other digits are random.
#[verifier::external_body]
pub(crate) fn new_interval_id() -> (id: String)
    ensures
        uuid_v4_text(id@),
{
    uuid::Uuid::new_v4().to_string()
}

/// The current time in whole Unix seconds: `time::OffsetDateTime::now_utc().unix_timestamp()`.
/// Any `OffsetDateTime` lies within the crate's supported range, and so does this one.
#[verifier::external_body]
pub(crate) fn now_utc_timestamp() -> (t: i64)
    ensures
        in_time_range(t as int),
{
    time::OffsetDateTime::now_utc().unix_timestamp()
}

/// Whether `t` is a valid instant for the `time` crate:
/// `time::OffsetDateTime::from_unix_timestamp(t)` succeeds exactly for the instants from
/// -9999-01-01 00:00:00 through 9999-12-31 23:59:59 UTC.
#[verifier::external_body]
pub fn timestamp_in_range(t: i64) -> (ok: bool)
    ensures
        ok == in_time_range(t as int),
{
    time::OffsetDateTime::from_unix_timestamp(t).is_ok()
}

/// The text `time` gives for the instant `t` seen under the UTC offset `offset` (seconds) when
/// formatting with the format description written as `description`; `None` when `time` refuses
/// the description or cannot format an `OffsetDateTime` with it.
pub uninterp spec fn time_format_text(t: int, offset: int, description: Seq<char>) -> Option<
    Seq<char>,
>;

/// Formats the instant `t` as a local date and time under `offset` with `time`:
/// `OffsetDateTime::from_unix_timestamp(t)`, `to_offset(UtcOffset::from_whole_seconds(offset))`,
/// then `format` with the description that `format_description::parse` reads from
/// `description`. Gives `None` where the description is refused or formatting fails. The
/// `requires` keep the other steps within the crate's ranges, where none of them fails or
/// panics.
#[verifier::external_body]
pub fn format_time(t: i64, offset: i32, description: &str) -> (s: Option<String>)
    requires
        -93599 <= offset <= 93599,
        in_time_range(t as int),
        in_time_range(t + offset),
    ensures
        s matches Some(x) ==> time_format_text(t as int, offset as int, description@) == Some(x@),
        s is None ==> time_format_text(t as int, offset as int, description@) is None,
{
    let utc = time::OffsetDateTime::from_unix_timestamp(t).expect("instant within range");
    let offset = time::UtcOffset::from_whole_seconds(offset).expect("offset within range");
    match time::format_description::parse(description) {
        Ok(items) => utc.to_offset(offset).format(&items).ok(),
        Err(_) => None,
    }
}

/// The earliest instant `chrono` can represent: January 1, 262144 BCE, 00:00:00 UTC.
pub const CHRONO_MIN_TS: i64 = -8334601228800;

/// The latest whole second `chrono` can represent: December 31, 262142 CE, 23:59:59 UTC.
pub const CHRONO_MAX_TS: i64 = 8210266876799;

/// `t` is a whole second `chrono` can represent.
pub open spec fn in_chrono_range(t: int) -> bool {
    CHRONO_MIN_TS <= t <= CHRONO_MAX_TS
}

/// Whether `chrono::DateTime::from_timestamp(t, 0)` succeeds: its source gives a value exactly
/// for the seconds whose date lies between `NaiveDate::MIN` and `NaiveDate::MAX`.
#[verifier::external_body]
pub fn chrono_timestamp_valid(t: i64) -> (ok: bool)
    ensures
        ok == in_chrono_range(t as int),
{
    chrono::DateTime::from_timestamp(t, 0).is_some()
}

/// The current time from `chrono::Utc::now()`: its Unix seconds (`timestamp()`) and the
/// nanoseconds within the second (`timestamp_subsec_nanos()`). A `DateTime` always lies
/// within `chrono`'s range, and its nanoseconds stay below two seconds' worth.
#[verifier::external_body]
pub(crate) fn chrono_utc_now() -> (now: UtcDateTime)
    ensures
        in_chrono_range(now.seconds as int),
        now.nanos < 2_000_000_000,
{
    let now = chrono::Utc::now();
    UtcDateTime { seconds: now.timestamp(), nanos: now.timestamp_subsec_nanos() }
}

/// The fuzzy search engine of `simsearch`.
#[verifier::external_type_specification]
#[verifier::external_body]
#[verifier::reject_recursive_types(Id)]
pub struct ExSimSearch<Id: Eq + PartialEq + Clone + std::hash::Hash + Ord>(simsearch::SimSearch<Id>);

/// The entries an engine holds: the content inserted under each id.
pub uninterp spec fn engine_entries(engine: simsearch::SimSearch<usize>) -> Map<usize, Seq<char>>;

/// The engine was made with the default search options (`SearchOptions::new()`: case
/// insensitive, splitting at whitespace, no stop words, Jaro-Winkler similarity above 0.8).
pub uninterp spec fn engine_default_options(engine: simsearch::SimSearch<usize>) -> bool;

/// The ids `SimSearch::search(pattern)` returns for an engine with the default options holding
/// `entries`: those whose content has a token similar enough to a token of `pattern`.
pub uninterp spec fn search_hits(entries: Map<usize, Seq<char>>, pattern: Seq<char>) -> Set<usize>;

/// `SimSearch::new()`: an engine with the default options and no entries.
#[verifier::external_body]
pub(crate) fn new_engine() -> (engine: simsearch::SimSearch<usize>)
    ensures
        engine_entries(engine).dom() == Set::<usize>::empty(),
        engine_default_options(engine),
{
    simsearch::SimSearch::new()
}

/// `SimSearch::insert(id, content)`: adds the entry under `id`, replacing any earlier entry
/// under it (the source deletes the old one first); the options stay as they were.
#[verifier::external_body]
pub(crate) fn engine_insert(engine: &mut simsearch::SimSearch<usize>, id: usize, content: &str)
    ensures
        engine_entries(*final(engine)) == engine_entries(*old(engine)).insert(id, content@),
        engine_default_options(*final(engine)) == engine_default_options(*old(engine)),
{
    engine.insert(id, content)
}

/// `SimSearch::search(pattern)`: the ids of matching entries, best match first, each once.
/// Which ids come back is a function of the entries and the pattern: an id is kept when one of
/// its tokens scores above the threshold against a token of the pattern. Their order is left
/// unsaid: the engine adds floating-point scores in the order it walks a `HashMap`, which each
/// process seeds differently.
#[verifier::external_body]
pub(crate) fn engine_search(engine: &simsearch::SimSearch<usize>, pattern: &str) -> (ids: Vec<usize>)
    requires
        engine_default_options(*engine),
    ensures
        forall|k: int|
            0 <= k < ids@.len() ==> engine_entries(*engine).dom().contains(#[trigger] ids@[k]),
        forall|k: int, l: int| 0 <= k < l < ids@.len() ==> #[trigger] ids@[k] != #[trigger] ids@[l],
        ids@.to_set() == search_hits(engine_entries(*engine), pattern@),
{
    engine.search(pattern)
}

/// The date `chrono` reads from `s` with `NaiveDate::parse_from_str(s, fmt)`, as year, month
/// and day, or `None` when it refuses the text.
pub uninterp spec fn chrono_date_parse(s: Seq<char>, fmt: Seq<char>) -> Option<(i32, u32, u32)>;

/// Parses a date with `chrono::NaiveDate::parse_from_str(s, fmt)`. A date that comes back is a
/// `NaiveDate`, so it is a real calendar date within `chrono`'s years.
#[verifier::external_body]
pub fn parse_date_with(s: &str, fmt: &str) -> (r: Option<(i32, u32, u32)>)
    ensures
        r == chrono_date_parse(s@, fmt@),
        r matches Some(p) ==> valid_ymd(p.0 as int, p.1 as int, p.2 as int),
{
    match chrono::NaiveDate::parse_from_str(s, fmt) {
        Ok(d) => Some((chrono::Datelike::year(&d), chrono::Datelike::month(&d), chrono::Datelike::day(&d))),
        Err(_) => None,
    }
}

/// The time of day `chrono` reads from `s` with `NaiveTime::parse_from_str(s, fmt)`, as hours
/// and minutes, or `None` when it refuses the text.
pub uninterp spec fn chrono_time_parse(s: Seq<char>, fmt: Seq<char>) -> Option<(u32, u32)>;

/// Parses a time of day with `chrono::NaiveTime::parse_from_str(s, fmt)`. A time that comes
/// back is a `NaiveTime`, so its hour is below 24 and its minute below 60.
#[verifier::external_body]
pub fn parse_time_with(s: &str, fmt: &str) -> (r: Option<(u32, u32)>)
    ensures
        r == chrono_time_parse(s@, fmt@),
        r matches Some(p) ==> p.0 < 24 && p.1 < 60,
{
    match chrono::NaiveTime::parse_from_str(s, fmt) {
        Ok(t) => Some((chrono::Timelike::hour(&t), chrono::Timelike::minute(&t))),
        Err(_) => None,
    }
}

/// The local date and time from `chrono::Local::now()`, to the minute. Its date is a
/// `NaiveDate` of the present day, its hour below 24 and its minute below 60.
#[verifier::external_body]
pub fn local_now() -> (now: LocalNow)
    ensures
        valid_now(now),
{
    let now = chrono::Local::now();
    let day = now.date_naive();
    LocalNow {
        date: Date {
            year: chrono::Datelike::year(&day),
            month: chrono::Datelike::month(&day),
            day: chrono::Datelike::day(&day),
        },
        hour: chrono::Timelike::hour(&now),
        minute: chrono::Timelike::minute(&now),
    }
}

/// The instant (Unix seconds) of the local wall-clock time `date` `hour`:`minute`:00 in the
/// machine's time zone, with the UTC offset (seconds east) that zone applies there:
/// `NaiveDateTime::and_local_timezone(Local).single()`, then `timestamp()` and
/// `offset().local_minus_utc()`. It is `None` when that local time is skipped or repeated by a
/// change of offset; which of the two comes back depends on the machine's time zone and is left
/// unsaid. A result is a `DateTime` made by subtracting a `FixedOffset` (less than a day either
/// way) from the local time, so the instant plus the offset is that local time, and the instant
/// lies within `chrono`'s range.
#[verifier::external_body]
pub(crate) fn local_to_utc(date: Date, hour: u32, minute: u32) -> (r: Option<(i64, i32)>)
    requires
        valid_date(date),
        hour < 24,
        minute < 60,
    ensures
        r matches Some(p) ==> in_chrono_range(p.0 as int),
        r matches Some(p) ==> -86400 < p.1 < 86400,
        r matches Some(p) ==> p.0 + p.1 == wall_seconds(date, hour as int, minute as int),
{
    let day = chrono::NaiveDate::from_ymd_opt(date.year, date.month, date.day).expect("valid date");
    let at = day.and_hms_opt(hour, minute, 0).expect("valid time of day");
    at.and_local_timezone(chrono::Local).single().map(
        |dt| (dt.timestamp(), dt.offset().local_minus_utc()),
    )
}

/// The task names `serde_json` reads from `text` as a `BTreeSet<String>`, listed in the set's
/// order, or the message of the error it reports.
pub uninterp spec fn taskset_json(text: Seq<char>) -> Result<Seq<Seq<char>>, Seq<char>>;

/// Reads a task set with `serde_json::from_str::<BTreeSet<String>>(text)`, listing the names in
/// the set's order (ascending, each once, as `BTreeSet` iterates), or giving the error's
/// message (`Display`).
#[verifier::external_body]
pub(crate) fn parse_taskset_json(text: &str) -> (r: Result<Vec<String>, String>)
    ensures
        r matches Ok(v) ==> (taskset_json(text@) matches Ok(n) && n == string_views(v@)),
        r matches Ok(v) ==> names_sorted(string_views(v@)),
        r matches Err(m) ==> (taskset_json(text@) matches Err(e) && e == m@),
{
    match serde_json::from_str::<std::collections::BTreeSet<String>>(text) {
        Ok(set) => Ok(set.into_iter().collect()),
        Err(e) => Err(e.to_string()),
    }
}

} // verus!
