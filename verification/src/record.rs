//! The synchronizable record: the base shape shared by the task and
//! calendar-event variants, together with its mathematical view.
//!
//! A record carries a stable identifier, a domain payload, an optional
//! timestamp of the last known modification, and the `pending_sync`
//! flag that marks a local edit not yet confirmed pushed to the remote
//! provider. Geographic coordinates are held as microdegrees so that
//! the payload stays within exact integer arithmetic.

use vstd::prelude::*;

verus! {

/// Domain payload of a task record.
#[derive(Clone, Debug, PartialEq)]
pub struct TaskFields {
    pub title: String,
    pub date: String,
    pub description: String,
    pub project: String,
    pub completed: bool,
    pub completed_on: Option<String>,
}

/// Domain payload of a calendar-event record.
#[derive(Clone, Debug, PartialEq)]
pub struct EventFields {
    pub title: String,
    pub description: Option<String>,
    pub date_start: Option<String>,
    pub date_end: Option<String>,
    pub time_start: Option<String>,
    pub time_end: Option<String>,
    pub location: Option<String>,
    /// Latitude in microdegrees (degrees times one million).
    pub latitude_microdeg: Option<i64>,
    /// Longitude in microdegrees (degrees times one million).
    pub longitude_microdeg: Option<i64>,
}

/// The two record variants a namespace can hold.
#[derive(Clone, Debug, PartialEq)]
pub enum Payload {
    Task(TaskFields),
    Event(EventFields),
}

/// A synchronizable record.
#[derive(Clone, Debug, PartialEq)]
pub struct Record {
    /// Stable unique identifier; immutable once set.
    pub id: String,
    pub payload: Payload,
    /// Timestamp of the last known modification, RFC 3339 UTC.
    pub updated_at: Option<String>,
    /// True while the record holds a local edit not yet confirmed
    /// pushed to the remote provider.
    pub pending_sync: bool,
}

#[verifier::ext_equal]
pub ghost struct TaskFieldsView {
    pub title: Seq<char>,
    pub date: Seq<char>,
    pub description: Seq<char>,
    pub project: Seq<char>,
    pub completed: bool,
    pub completed_on: Option<Seq<char>>,
}

#[verifier::ext_equal]
pub ghost struct EventFieldsView {
    pub title: Seq<char>,
    pub description: Option<Seq<char>>,
    pub date_start: Option<Seq<char>>,
    pub date_end: Option<Seq<char>>,
    pub time_start: Option<Seq<char>>,
    pub time_end: Option<Seq<char>>,
    pub location: Option<Seq<char>>,
    pub latitude_microdeg: Option<i64>,
    pub longitude_microdeg: Option<i64>,
}

#[verifier::ext_equal]
pub ghost enum PayloadView {
    Task(TaskFieldsView),
    Event(EventFieldsView),
}

#[verifier::ext_equal]
pub ghost struct RecordView {
    pub id: Seq<char>,
    pub payload: PayloadView,
    pub updated_at: Option<Seq<char>>,
    pub pending_sync: bool,
}

/// View of an optional string as an optional character sequence.
pub open spec fn opt_view(s: Option<String>) -> Option<Seq<char>> {
    match s {
        Some(v) => Some(v@),
        None => None,
    }
}

impl View for TaskFields {
    type V = TaskFieldsView;

    open spec fn view(&self) -> TaskFieldsView {
        TaskFieldsView {
            title: self.title@,
            date: self.date@,
            description: self.description@,
            project: self.project@,
            completed: self.completed,
            completed_on: opt_view(self.completed_on),
        }
    }
}

impl View for EventFields {
    type V = EventFieldsView;

    open spec fn view(&self) -> EventFieldsView {
        EventFieldsView {
            title: self.title@,
            description: opt_view(self.description),
            date_start: opt_view(self.date_start),
            date_end: opt_view(self.date_end),
            time_start: opt_view(self.time_start),
            time_end: opt_view(self.time_end),
            location: opt_view(self.location),
            latitude_microdeg: self.latitude_microdeg,
            longitude_microdeg: self.longitude_microdeg,
        }
    }
}

impl View for Payload {
    type V = PayloadView;

    open spec fn view(&self) -> PayloadView {
        match self {
            Payload::Task(t) => PayloadView::Task(t@),
            Payload::Event(e) => PayloadView::Event(e@),
        }
    }
}

impl View for Record {
    type V = RecordView;

    open spec fn view(&self) -> RecordView {
        RecordView {
            id: self.id@,
            payload: self.payload@,
            updated_at: opt_view(self.updated_at),
            pending_sync: self.pending_sync,
        }
    }
}

/// View of a record sequence, record by record.
pub open spec fn recs_view(s: Seq<Record>) -> Seq<RecordView> {
    s.map_values(|r: Record| r@)
}

/// View of a string sequence, string by string.
pub open spec fn strs_view(s: Seq<String>) -> Seq<Seq<char>> {
    s.map_values(|x: String| x@)
}

/// Field-by-field copy of an optional string, equal to the original.
pub fn dup_opt_string(s: &Option<String>) -> (r: Option<String>)
    ensures
        r == *s,
{
    match s {
        Some(v) => Some(v.clone()),
        None => None,
    }
}

impl TaskFields {
    /// Field-by-field copy, equal to the original.
    pub fn duplicate(&self) -> (r: TaskFields)
        ensures
            r == *self,
    {
        TaskFields {
            title: self.title.clone(),
            date: self.date.clone(),
            description: self.description.clone(),
            project: self.project.clone(),
            completed: self.completed,
            completed_on: dup_opt_string(&self.completed_on),
        }
    }
}

impl EventFields {
    /// Field-by-field copy, equal to the original.
    pub fn duplicate(&self) -> (r: EventFields)
        ensures
            r == *self,
    {
        EventFields {
            title: self.title.clone(),
            description: dup_opt_string(&self.description),
            date_start: dup_opt_string(&self.date_start),
            date_end: dup_opt_string(&self.date_end),
            time_start: dup_opt_string(&self.time_start),
            time_end: dup_opt_string(&self.time_end),
            location: dup_opt_string(&self.location),
            latitude_microdeg: self.latitude_microdeg,
            longitude_microdeg: self.longitude_microdeg,
        }
    }
}

impl Payload {
    /// Variant-preserving copy, equal to the original.
    pub fn duplicate(&self) -> (r: Payload)
        ensures
            r == *self,
    {
        match self {
            Payload::Task(t) => Payload::Task(t.duplicate()),
            Payload::Event(e) => Payload::Event(e.duplicate()),
        }
    }
}

impl Record {
    /// Field-by-field copy, equal to the original.
    pub fn duplicate(&self) -> (r: Record)
        ensures
            r == *self,
    {
        Record {
            id: self.id.clone(),
            payload: self.payload.duplicate(),
            updated_at: dup_opt_string(&self.updated_at),
            pending_sync: self.pending_sync,
        }
    }

    /// The same record with the pending marker cleared, as a remote
    /// record is adopted into the local cache.
    pub fn adopted(&self) -> (r: Record)
        ensures
            r@ == adopt(self@),
    {
        Record {
            id: self.id.clone(),
            payload: self.payload.duplicate(),
            updated_at: dup_opt_string(&self.updated_at),
            pending_sync: false,
        }
    }
}

/// A record as it enters the cache from a remote snapshot: the same
/// record with `pending_sync` false.
pub open spec fn adopt(r: RecordView) -> RecordView {
    RecordView { pending_sync: false, ..r }
}

} // verus!
