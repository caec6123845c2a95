//! The provider gateway's decision logic: translating a remote
//! calendar item into the event shape the application consumes,
//! classifying provider failures, and the refresh-and-retry policy.
//!
//! The HTTP calls themselves happen outside the library; what they
//! return is handed in as plain values, and every decision on those
//! values is made here.

use vstd::prelude::*;
use vstd::string::StringExecFns;

use crate::record::{dup_opt_string, opt_view};
use crate::strings::str_eq;

verus! {

/// Provider failures, telling the caller what may be retried.
#[derive(Clone, Copy, PartialEq, Eq, Structural, Debug)]
pub enum ProviderError {
    /// Server error or network failure: eligible for caller-directed
    /// retry.
    Transient,
    /// Client error other than an authentication failure: not
    /// retried.
    PermanentRejection,
    /// The credential was invalid or expired: triggers one
    /// refresh-and-retry.
    AuthExpired,
}

/// How a provider response status is classified: success for the
/// two-hundreds, an authentication failure for 401 and 403, a
/// transient failure for the five-hundreds, a permanent rejection
/// otherwise.
pub open spec fn spec_classify_status(status: u16) -> Result<(), ProviderError> {
    if 200 <= status < 300 {
        Ok(())
    } else if status == 401 || status == 403 {
        Err(ProviderError::AuthExpired)
    } else if 500 <= status < 600 {
        Err(ProviderError::Transient)
    } else {
        Err(ProviderError::PermanentRejection)
    }
}

/// Classifies an HTTP status of a provider response.
pub fn classify_status(status: u16) -> (r: Result<(), ProviderError>)
    ensures
        r == spec_classify_status(status),
{
    if 200 <= status && status < 300 {
        Ok(())
    } else if status == 401 || status == 403 {
        Err(ProviderError::AuthExpired)
    } else if 500 <= status && status < 600 {
        Err(ProviderError::Transient)
    } else {
        Err(ProviderError::PermanentRejection)
    }
}

/// What the sync cycle does after a provider call.
#[derive(Clone, Copy, PartialEq, Eq, Structural, Debug)]
pub enum SyncStep {
    /// The call succeeded.
    Done,
    /// The credential expired and no refresh was tried yet: refresh
    /// once and retry the call.
    RefreshAndRetry,
    /// The credential expired again after a refresh: abort the cycle
    /// and surface a re-authorization requirement.
    AbortReauthorize,
    /// Transient failure: the record keeps `pending_sync` and the
    /// next sync cycle retries.
    RetryNextCycle,
    /// Permanent rejection: not retried.
    AbortRejected,
}

/// The refresh-and-retry policy: an authentication failure triggers
/// exactly one refresh-and-retry; a second one aborts the cycle as
/// needing re-authorization; transient failures wait for the next
/// cycle; permanent rejections are not retried.
pub fn next_sync_step(already_refreshed: bool, outcome: Result<(), ProviderError>) -> (s: SyncStep)
    ensures
        outcome is Ok ==> s == SyncStep::Done,
        outcome == Result::<(), ProviderError>::Err(ProviderError::AuthExpired)
            && !already_refreshed ==> s == SyncStep::RefreshAndRetry,
        outcome == Result::<(), ProviderError>::Err(ProviderError::AuthExpired)
            && already_refreshed ==> s == SyncStep::AbortReauthorize,
        outcome == Result::<(), ProviderError>::Err(ProviderError::Transient) ==> s
            == SyncStep::RetryNextCycle,
        outcome == Result::<(), ProviderError>::Err(ProviderError::PermanentRejection) ==> s
            == SyncStep::AbortRejected,
{
    match outcome {
        Ok(_) => SyncStep::Done,
        Err(ProviderError::AuthExpired) => if already_refreshed {
            SyncStep::AbortReauthorize
        } else {
            SyncStep::RefreshAndRetry
        },
        Err(ProviderError::Transient) => SyncStep::RetryNextCycle,
        Err(ProviderError::PermanentRejection) => SyncStep::AbortRejected,
    }
}

/// One conference entry point of a remote calendar item.
#[derive(Clone, Debug, PartialEq)]
pub struct EntryPoint {
    pub entry_point_type: String,
    pub uri: Option<String>,
}

#[verifier::ext_equal]
pub ghost struct EntryPointView {
    pub entry_point_type: Seq<char>,
    pub uri: Option<Seq<char>>,
}

impl View for EntryPoint {
    type V = EntryPointView;

    open spec fn view(&self) -> EntryPointView {
        EntryPointView { entry_point_type: self.entry_point_type@, uri: opt_view(self.uri) }
    }
}

/// The fields of a remote calendar item that the translation reads.
#[derive(Clone, Debug, PartialEq)]
pub struct RawEvent {
    pub summary: Option<String>,
    pub hangout_link: Option<String>,
    pub entry_points: Vec<EntryPoint>,
    pub location: Option<String>,
    pub start_date_time: Option<String>,
    pub start_date: Option<String>,
    pub end_date_time: Option<String>,
    pub end_date: Option<String>,
    pub description: Option<String>,
}

#[verifier::ext_equal]
pub ghost struct RawEventView {
    pub summary: Option<Seq<char>>,
    pub hangout_link: Option<Seq<char>>,
    pub entry_points: Seq<EntryPointView>,
    pub location: Option<Seq<char>>,
    pub start_date_time: Option<Seq<char>>,
    pub start_date: Option<Seq<char>>,
    pub end_date_time: Option<Seq<char>>,
    pub end_date: Option<Seq<char>>,
    pub description: Option<Seq<char>>,
}

impl View for RawEvent {
    type V = RawEventView;

    open spec fn view(&self) -> RawEventView {
        RawEventView {
            summary: opt_view(self.summary),
            hangout_link: opt_view(self.hangout_link),
            entry_points: self.entry_points@.map_values(|e: EntryPoint| e@),
            location: opt_view(self.location),
            start_date_time: opt_view(self.start_date_time),
            start_date: opt_view(self.start_date),
            end_date_time: opt_view(self.end_date_time),
            end_date: opt_view(self.end_date),
            description: opt_view(self.description),
        }
    }
}

/// A calendar event as the application consumes it.
#[derive(Clone, Debug, PartialEq)]
pub struct CalendarEvent {
    pub summary: String,
    pub start: Option<String>,
    pub end: Option<String>,
    pub description: Option<String>,
    pub location: Option<String>,
}

#[verifier::ext_equal]
pub ghost struct CalendarEventView {
    pub summary: Seq<char>,
    pub start: Option<Seq<char>>,
    pub end: Option<Seq<char>>,
    pub description: Option<Seq<char>>,
    pub location: Option<Seq<char>>,
}

impl View for CalendarEvent {
    type V = CalendarEventView;

    open spec fn view(&self) -> CalendarEventView {
        CalendarEventView {
            summary: self.summary@,
            start: opt_view(self.start),
            end: opt_view(self.end),
            description: opt_view(self.description),
            location: opt_view(self.location),
        }
    }
}

/// The first of the two options that is present.
pub open spec fn or_opt(a: Option<Seq<char>>, b: Option<Seq<char>>) -> Option<Seq<char>> {
    if a is Some {
        a
    } else {
        b
    }
}

/// The URI of the first entry point whose type is `video`, if any;
/// an entry of that type without a URI ends the search empty-handed.
pub open spec fn first_video_uri(entries: Seq<EntryPointView>) -> Option<Seq<char>>
    decreases entries.len(),
{
    if entries.len() == 0 {
        None
    } else if entries[0].entry_point_type == "video"@ {
        entries[0].uri
    } else {
        first_video_uri(entries.drop_first())
    }
}

/// The meeting link of a remote item: the dedicated conference link,
/// else the first video entry point, else the plain location.
pub open spec fn spec_meeting_link(r: RawEventView) -> Option<Seq<char>> {
    or_opt(r.hangout_link, or_opt(first_video_uri(r.entry_points), r.location))
}

/// How a remote item translates: an item without a summary, or with
/// an empty one, is skipped; otherwise the timed start and end are
/// preferred over the all-day dates, and the location carries the
/// meeting link.
pub open spec fn spec_extract_event(r: RawEventView) -> Option<CalendarEventView> {
    match r.summary {
        None => None,
        Some(su) => if su.len() == 0 {
            None
        } else {
            Some(
                CalendarEventView {
                    summary: su,
                    start: or_opt(r.start_date_time, r.start_date),
                    end: or_opt(r.end_date_time, r.end_date),
                    description: r.description,
                    location: spec_meeting_link(r),
                },
            )
        },
    }
}

/// Translations of the first `n` remote items, the skipped ones left
/// out.
pub open spec fn spec_extract_events(rs: Seq<RawEventView>, n: int) -> Seq<CalendarEventView>
    decreases n,
{
    if n <= 0 {
        seq![]
    } else {
        spec_extract_events(rs, n - 1) + (match spec_extract_event(rs[n - 1]) {
            Some(e) => seq![e],
            None => seq![],
        })
    }
}

proof fn lemma_first_video_uri_skip(s: Seq<EntryPointView>, j: int)
    requires
        0 <= j < s.len(),
        s[j].entry_point_type != "video"@,
    ensures
        first_video_uri(s.skip(j)) == first_video_uri(s.skip(j + 1)),
{
    assert(s.skip(j).drop_first() =~= s.skip(j + 1));
    assert(s.skip(j)[0] == s[j]);
}

fn first_video_uri_exec(entries: &Vec<EntryPoint>) -> (r: Option<String>)
    ensures
        opt_view(r) == first_video_uri(entries@.map_values(|e: EntryPoint| e@)),
{
    let ghost s = entries@.map_values(|e: EntryPoint| e@);
    proof {
        assert(s.skip(0) =~= s);
    }
    let mut j: usize = 0;
    while j < entries.len()
        invariant
            j <= entries.len(),
            s == entries@.map_values(|e: EntryPoint| e@),
            s.len() == entries@.len(),
            first_video_uri(s) == first_video_uri(s.skip(j as int)),
        decreases entries.len() - j,
    {
        proof {
            assert(s[j as int] == entries@[j as int]@);
            assert(s.skip(j as int)[0] == s[j as int]);
        }
        if str_eq(entries[j].entry_point_type.as_str(), "video") {
            return dup_opt_string(&entries[j].uri);
        }
        proof {
            lemma_first_video_uri_skip(s, j as int);
        }
        j = j + 1;
    }
    proof {
        assert(s.skip(j as int).len() == 0);
    }
    None
}

fn or_opt_exec(a: &Option<String>, b: &Option<String>) -> (r: Option<String>)
    ensures
        opt_view(r) == or_opt(opt_view(*a), opt_view(*b)),
{
    match a {
        Some(v) => Some(v.clone()),
        None => dup_opt_string(b),
    }
}

/// Translates one remote calendar item, skipping items without a
/// non-empty summary.
pub fn extract_event(raw: &RawEvent) -> (r: Option<CalendarEvent>)
    ensures
        match r {
            None => spec_extract_event(raw@) is None,
            Some(ev) => spec_extract_event(raw@) == Some(ev@),
        },
{
    match &raw.summary {
        None => None,
        Some(su) => {
            if su.as_str().is_empty() {
                None
            } else {
                let fv = first_video_uri_exec(&raw.entry_points);
                let tail = or_opt_exec(&fv, &raw.location);
                let location = or_opt_exec(&raw.hangout_link, &tail);
                let ev = CalendarEvent {
                    summary: su.clone(),
                    start: or_opt_exec(&raw.start_date_time, &raw.start_date),
                    end: or_opt_exec(&raw.end_date_time, &raw.end_date),
                    description: dup_opt_string(&raw.description),
                    location,
                };
                proof {
                    assert(spec_extract_event(raw@) == Some(ev@));
                }
                Some(ev)
            }
        },
    }
}

/// Translates a remote snapshot item by item, keeping the items'
/// order and leaving skipped items out.
pub fn extract_events(raws: &Vec<RawEvent>) -> (r: Vec<CalendarEvent>)
    ensures
        r@.map_values(|e: CalendarEvent| e@) == spec_extract_events(
            raws@.map_values(|x: RawEvent| x@),
            raws@.len() as int,
        ),
{
    let ghost s = raws@.map_values(|x: RawEvent| x@);
    let mut out: Vec<CalendarEvent> = Vec::new();
    let mut i: usize = 0;
    while i < raws.len()
        invariant
            i <= raws.len(),
            s == raws@.map_values(|x: RawEvent| x@),
            s.len() == raws@.len(),
            out@.map_values(|e: CalendarEvent| e@) =~= spec_extract_events(s, i as int),
        decreases raws.len() - i,
    {
        proof {
            assert(s[i as int] == raws@[i as int]@);
        }
        let ghost old_out = out@;
        match extract_event(&raws[i]) {
            Some(ev) => {
                out.push(ev);
            },
            None => {},
        }
        proof {
            assert(out@.map_values(|e: CalendarEvent| e@) =~= old_out.map_values(
                |e: CalendarEvent| e@,
            ) + (match spec_extract_event(s[i as int]) {
                Some(e) => seq![e],
                None => seq![],
            }));
        }
        i = i + 1;
    }
    out
}

/// Relies on chrono's `Utc::now`, `TimeDelta::days` and
/// `DateTime::to_rfc3339`: the current instant minus `days` days,
/// rendered as an RFC 3339 timestamp, which is never empty. The
/// result depends on the clock, so nothing more is promised of it;
/// the bound on `days` keeps the subtraction within chrono's
/// representable range for any realistic clock.
#[verifier::external_body]
fn now_minus_days_rfc3339(days: u64) -> (r: String)
    requires
        days <= 36500,
    ensures
        r@.len() > 0,
{
    let past = chrono::Utc::now() - chrono::Duration::days(days as i64);
    past.to_rfc3339()
}

/// Start of the calendar fetch window: thirty days before now.
pub fn fetch_window_start() -> (r: String)
    ensures
        r@.len() > 0,
{
    now_minus_days_rfc3339(30)
}

/// The query parameters of a calendar snapshot fetch: events from
/// `time_min` on, recurring events expanded, ordered by start time.
pub fn calendar_events_query(time_min: &str) -> (r: Vec<(String, String)>)
    ensures
        r@.len() == 3,
        r@[0].0@ == "timeMin"@ && r@[0].1@ == time_min@,
        r@[1].0@ == "singleEvents"@ && r@[1].1@ == "true"@,
        r@[2].0@ == "orderBy"@ && r@[2].1@ == "startTime"@,
{
    let mut v: Vec<(String, String)> = Vec::new();
    v.push((String::from_str("timeMin"), String::from_str(time_min)));
    v.push((String::from_str("singleEvents"), String::from_str("true")));
    v.push((String::from_str("orderBy"), String::from_str("startTime")));
    v
}

} // verus!
