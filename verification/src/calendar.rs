//! The calendar event builder.
//!
//! Each accepted moonrise instant becomes one event: the event starts a
//! requested number of minutes before the moonrise and ends a requested
//! number of minutes after it, carries a summary (by default "Moonrise"),
//! and describes the instant rendered in a requested timezone, falling back
//! to a UTC rendering when the timezone name does not parse.  The events
//! are serialized as an iCalendar document, one VEVENT per instant, in
//! input order.

use vstd::prelude::*;
use vstd::string::StringExecFns;
use crate::datetime::dtstamp_view;
use crate::datetime::format_dtstamp;
use crate::datetime::readable_utc_view;
use crate::datetime::format_readable_utc;
use crate::julian::solar_day_start_of;
use crate::julian::lemma_solar_day_bounds;
use crate::moonrise::MoonriseOracle;
use crate::moonrise::replay_accepted;
use crate::moonrise::trace_in_windows;
use crate::moonrise::generate_moonrises;

verus! {

broadcast use vstd::seq::group_seq_axioms;

/// Whether the external timezone database knows a name.
pub uninterp spec fn tz_valid(name: Seq<char>) -> bool;

/// The text an instant renders to in a named timezone.
pub uninterp spec fn tz_rendering(instant: int, name: Seq<char>) -> Seq<char>;

/// Relies on chrono_tz's timezone-name parser (`Tz::from_str`, which
/// succeeds exactly on the names of its compiled-in timezone database) and
/// on chrono's datetime display in that timezone: both depend only on the
/// name and the instant.
#[verifier::external_body]
fn render_in_timezone(instant: i64, name: &str) -> (r: Option<String>)
    requires
        0 <= instant < 253234080000,
    ensures
        r is Some <==> tz_valid(name@),
        r matches Some(s) ==> s@ == tz_rendering(instant as int, name@),
{
    let tz: chrono_tz::Tz = match name.parse() {
        Ok(tz) => tz,
        Err(_) => return None,
    };
    let utc = chrono::DateTime::from_timestamp(instant, 0).unwrap();
    Some(format!("{}", utc.with_timezone(&tz)))
}

/// A request for a moonrise calendar.  Coordinates are signed
/// micro-degrees; `before` and `after` are minutes around each moonrise;
/// the summary defaults to "Moonrise" and the timezone name to "UTC".
#[derive(Debug, Clone)]
pub struct CreateCalendar {
    pub lat: i64,
    pub lon: i64,
    pub before: usize,
    pub after: usize,
    pub number_of_days: usize,
    pub summary: Option<String>,
    pub timezone: Option<String>,
}

/// Why a request was rejected.
#[derive(Debug, Clone, Copy, PartialEq, Eq, Structural)]
pub enum CalendarError {
    /// The latitude lies outside [-90, 90] degrees.
    InvalidLatitude,
    /// The longitude lies outside [-180, 180] degrees.
    InvalidLongitude,
    /// The day count is zero or beyond a century of days.
    InvalidDayCount,
    /// An offset exceeds a million minutes.
    OffsetTooLarge,
}

pub open spec fn latitude_ok(req: CreateCalendar) -> bool {
    -90000000 <= req.lat <= 90000000
}

pub open spec fn longitude_ok(req: CreateCalendar) -> bool {
    -180000000 <= req.lon <= 180000000
}

pub open spec fn day_count_ok(req: CreateCalendar) -> bool {
    1 <= req.number_of_days <= 36500
}

pub open spec fn offsets_ok(req: CreateCalendar) -> bool {
    req.before <= 1000000 && req.after <= 1000000
}

pub open spec fn request_ok(req: CreateCalendar) -> bool {
    latitude_ok(req) && longitude_ok(req) && day_count_ok(req) && offsets_ok(req)
}

/// An event around a moonrise starts `before` minutes before it and ends
/// `after` minutes after it, exactly.
pub fn event_times(instant: i64, before: usize, after: usize) -> (r: (i64, i64))
    requires
        before <= 1000000,
        after <= 1000000,
        -4000000000000000 <= instant <= 4000000000000000,
    ensures
        r.0 as int == instant as int - before as int * 60,
        r.1 as int == instant as int + after as int * 60,
{
    let start = instant - (before as i64) * 60;
    let end = instant + (after as i64) * 60;
    (start, end)
}

/// The event summary: the given text, or "Moonrise".
pub open spec fn summary_view(summary: Option<String>) -> Seq<char> {
    match summary {
        Some(s) => s@,
        None => "Moonrise"@,
    }
}

/// The timezone name used for the description: the given name, or "UTC".
pub open spec fn tz_name_view(timezone: Option<String>) -> Seq<char> {
    match timezone {
        Some(s) => s@,
        None => "UTC"@,
    }
}

/// The description of an event: "Moonrise @ " and the instant rendered in
/// the named timezone, or rendered readably in UTC when the name is not a
/// known timezone.
pub open spec fn description_view(instant: int, tzname: Seq<char>) -> Seq<char> {
    "Moonrise @ "@ + if tz_valid(tzname) {
        tz_rendering(instant, tzname)
    } else {
        readable_utc_view(instant)
    }
}

/// Builds the description of the event for one moonrise instant.
pub fn event_description(instant: i64, timezone: &Option<String>) -> (r: String)
    requires
        0 <= instant < 253234080000,
    ensures
        r@ == description_view(instant as int, tz_name_view(*timezone)),
{
    let name: &str = match timezone {
        Some(s) => s.as_str(),
        None => "UTC",
    };
    let mut out = String::new();
    out.append("Moonrise @ ");
    match render_in_timezone(instant, name) {
        Some(rendered) => {
            out.append(rendered.as_str());
        },
        None => {
            let fallback = format_readable_utc(instant);
            out.append(fallback.as_str());
        },
    }
    proof {
        assert(out@ =~= description_view(instant as int, tz_name_view(*timezone)));
    }
    out
}

/// The serialized text of one event.
pub open spec fn event_view(
    instant: int,
    before: int,
    after: int,
    summary: Seq<char>,
    tzname: Seq<char>,
) -> Seq<char> {
    "BEGIN:VEVENT\r\nSUMMARY:"@ + summary + "\r\nDESCRIPTION:"@ + description_view(instant, tzname)
        + "\r\nDTSTART:"@ + dtstamp_view(instant - before * 60) + "\r\nDTEND:"@ + dtstamp_view(
        instant + after * 60,
    ) + "\r\nEND:VEVENT\r\n"@
}

/// The serialized texts of a sequence of events, in order.
pub open spec fn events_view(
    instants: Seq<int>,
    before: int,
    after: int,
    summary: Seq<char>,
    tzname: Seq<char>,
) -> Seq<char>
    decreases instants.len(),
{
    if instants.len() == 0 {
        Seq::empty()
    } else {
        events_view(instants.drop_last(), before, after, summary, tzname) + event_view(
            instants.last(),
            before,
            after,
            summary,
            tzname,
        )
    }
}

/// The serialized calendar document.
pub open spec fn calendar_view(
    instants: Seq<int>,
    before: int,
    after: int,
    summary: Seq<char>,
    tzname: Seq<char>,
) -> Seq<char> {
    "BEGIN:VCALENDAR\r\nVERSION:2.0\r\nPRODID:-//mooncal//EN\r\n"@ + events_view(
        instants,
        before,
        after,
        summary,
        tzname,
    ) + "END:VCALENDAR\r\n"@
}

/// Serializes one event.
fn event_text(instant: i64, before: usize, after: usize, summary_str: &str, timezone: &Option<
    String,
>) -> (r: String)
    requires
        before <= 1000000,
        after <= 1000000,
        before as int * 60 <= instant as int,
        instant as int + after as int * 60 < 253234080000,
    ensures
        r@ == event_view(
            instant as int,
            before as int,
            after as int,
            summary_str@,
            tz_name_view(*timezone),
        ),
{
    let (start, end) = event_times(instant, before, after);
    let desc = event_description(instant, timezone);
    let start_text = format_dtstamp(start);
    let end_text = format_dtstamp(end);
    let mut out = String::new();
    out.append("BEGIN:VEVENT\r\nSUMMARY:");
    out.append(summary_str);
    out.append("\r\nDESCRIPTION:");
    out.append(desc.as_str());
    out.append("\r\nDTSTART:");
    out.append(start_text.as_str());
    out.append("\r\nDTEND:");
    out.append(end_text.as_str());
    out.append("\r\nEND:VEVENT\r\n");
    proof {
        assert(out@ =~= event_view(
            instant as int,
            before as int,
            after as int,
            summary_str@,
            tz_name_view(*timezone),
        ));
    }
    out
}

/// Serializes a sequence of moonrise instants into an iCalendar document:
/// one event per instant, in input order, with no deduplication.
#[verifier::rlimit(100)]
pub fn build_calendar(
    moonrises: &Vec<i64>,
    before: usize,
    after: usize,
    summary: &Option<String>,
    timezone: &Option<String>,
) -> (r: String)
    requires
        before <= 1000000,
        after <= 1000000,
        forall|k: int|
            0 <= k < moonrises@.len() ==> before as int * 60 <= #[trigger] moonrises@[k]
                && moonrises@[k] + after as int * 60 < 253234080000,
    ensures
        r@ == calendar_view(
            moonrises@.map_values(|v: i64| v as int),
            before as int,
            after as int,
            summary_view(*summary),
            tz_name_view(*timezone),
        ),
{
    let ghost instants: Seq<int> = moonrises@.map_values(|v: i64| v as int);
    let ghost s_view: Seq<char> = summary_view(*summary);
    let ghost t_view: Seq<char> = tz_name_view(*timezone);
    let summary_str: &str = match summary {
        Some(s) => s.as_str(),
        None => "Moonrise",
    };
    let mut out = String::new();
    out.append("BEGIN:VCALENDAR\r\nVERSION:2.0\r\nPRODID:-//mooncal//EN\r\n");
    let mut i: usize = 0;
    while i < moonrises.len()
        invariant
            i <= moonrises@.len(),
            before <= 1000000,
            after <= 1000000,
            forall|k: int|
                0 <= k < moonrises@.len() ==> before as int * 60 <= #[trigger] moonrises@[k]
                    && moonrises@[k] + after as int * 60 < 253234080000,
            instants == moonrises@.map_values(|v: i64| v as int),
            s_view == summary_view(*summary),
            t_view == tz_name_view(*timezone),
            summary_str@ == s_view,
            out@ == "BEGIN:VCALENDAR\r\nVERSION:2.0\r\nPRODID:-//mooncal//EN\r\n"@ + events_view(
                instants.take(i as int),
                before as int,
                after as int,
                s_view,
                t_view,
            ),
        decreases moonrises@.len() - i,
    {
        let instant = moonrises[i];
        let event = event_text(instant, before, after, summary_str, timezone);
        out.append(event.as_str());
        proof {
            assert(instants.take(i as int + 1).drop_last() =~= instants.take(i as int));
            assert(instants.take(i as int + 1).last() == instants[i as int]);
            assert(events_view(instants.take(i as int + 1), before as int, after as int, s_view,
                t_view) == events_view(instants.take(i as int), before as int, after as int,
                s_view, t_view) + event_view(instants[i as int], before as int, after as int,
                s_view, t_view));
            vstd::seq_lib::lemma_concat_associative(
                "BEGIN:VCALENDAR\r\nVERSION:2.0\r\nPRODID:-//mooncal//EN\r\n"@,
                events_view(instants.take(i as int), before as int, after as int, s_view, t_view),
                event_view(instants[i as int], before as int, after as int, s_view, t_view),
            );
        }
        i = i + 1;
    }
    proof {
        assert(instants.take(instants.len() as int) =~= instants);
    }
    out.append("END:VCALENDAR\r\n");
    out
}

/// Handles one calendar request: validates it, generates the moonrise
/// sequence for the requested window, and serializes the calendar
/// document.  Succeeds exactly on requests whose latitude, longitude, day
/// count and offsets are in range; the errors name the first check that
/// failed.
pub fn generate_calendar<O: MoonriseOracle>(oracle: &O, now: i64, request: &CreateCalendar) -> (r:
    Result<String, CalendarError>)
    requires
        100000000 <= now <= 250000000000,
    ensures
        r is Ok <==> request_ok(*request),
        r == Err::<String, CalendarError>(CalendarError::InvalidLatitude) <==> !latitude_ok(
            *request,
        ),
        r == Err::<String, CalendarError>(CalendarError::InvalidLongitude) <==> (latitude_ok(
            *request,
        ) && !longitude_ok(*request)),
        r == Err::<String, CalendarError>(CalendarError::InvalidDayCount) <==> (latitude_ok(
            *request,
        ) && longitude_ok(*request) && !day_count_ok(*request)),
        r == Err::<String, CalendarError>(CalendarError::OffsetTooLarge) <==> (latitude_ok(
            *request,
        ) && longitude_ok(*request) && day_count_ok(*request) && !offsets_ok(*request)),
        r matches Ok(doc) ==> exists|days: Seq<(Option<int>, Option<int>)>|
            {
                &&& days.len() == request.number_of_days
                &&& trace_in_windows(days, solar_day_start_of(now as int, request.lon as int))
                &&& doc@ == #[trigger] calendar_view(
                    replay_accepted(days, 0),
                    request.before as int,
                    request.after as int,
                    summary_view(request.summary),
                    tz_name_view(request.timezone),
                )
            },
{
    if request.lat < -90000000 || request.lat > 90000000 {
        return Err(CalendarError::InvalidLatitude);
    }
    if request.lon < -180000000 || request.lon > 180000000 {
        return Err(CalendarError::InvalidLongitude);
    }
    if request.number_of_days < 1 || request.number_of_days > 36500 {
        return Err(CalendarError::InvalidDayCount);
    }
    if request.before > 1000000 || request.after > 1000000 {
        return Err(CalendarError::OffsetTooLarge);
    }
    let moonrises = generate_moonrises(
        oracle,
        now,
        request.lat,
        request.lon,
        request.number_of_days,
    );
    proof {
        lemma_solar_day_bounds(now as int, request.lon as int);
    }
    let doc = build_calendar(
        &moonrises,
        request.before,
        request.after,
        &request.summary,
        &request.timezone,
    );
    proof {
        let accepted: Seq<int> = moonrises@.map_values(|v: i64| v as int);
        let start = solar_day_start_of(now as int, request.lon as int);
        let trace = choose|days: Seq<(Option<int>, Option<int>)>|
            {
                &&& days.len() == request.number_of_days
                &&& trace_in_windows(days, start)
                &&& accepted == #[trigger] replay_accepted(days, 0)
            };
        assert(doc@ == calendar_view(
            replay_accepted(trace, 0),
            request.before as int,
            request.after as int,
            summary_view(request.summary),
            tz_name_view(request.timezone),
        ));
    }
    Ok(doc)
}

/// The Content-Disposition header value the calendar is served with.
pub fn calendar_attachment() -> (r: &'static str)
    ensures
        r@ == "attachment; filename=\"moonrises.ical\""@,
{
    "attachment; filename=\"moonrises.ical\""
}

} // verus!
