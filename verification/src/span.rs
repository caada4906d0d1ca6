//! Spans: the record of one traced unit of work.

use vstd::prelude::*;
use crate::assoc::entries_map;
use crate::assoc::entries_upsert;
use crate::assoc::unique_keys;

verus! {

/// serde_json's structured attribute value, carried through the store
/// opaquely: the store keeps and returns such values, never reads them.
#[verifier::external_type_specification]
#[verifier::external_body]
pub struct ExValue(serde_json::Value);

/// Relies on serde_json::Value's derived Clone: a clone equals the original.
pub assume_specification[ <serde_json::Value as Clone>::clone ](v: &serde_json::Value) -> (r:
    serde_json::Value)
    ensures
        r == *v,
;

/// Does `c` spell a lowercase hexadecimal digit?
pub open spec fn is_lower_hex_digit(c: char) -> bool {
    (48 <= c as u32 <= 57) || (97 <= c as u32 <= 102)
}

/// Does `s` spell the canonical hyphenated form of a random (version 4)
/// 128-bit identifier?  36 characters: lowercase hexadecimal digits, with
/// hyphens at positions 8, 13, 18 and 23, the version digit `4` at position
/// 14, and a variant digit among `8`, `9`, `a`, `b` at position 19.
pub open spec fn is_canonical_uuid(s: Seq<char>) -> bool {
    &&& s.len() == 36
    &&& forall|i: int|
        0 <= i < 36 ==> (if i == 8 || i == 13 || i == 18 || i == 23 {
            s[i] == '-'
        } else {
            is_lower_hex_digit(#[trigger] s[i])
        })
    &&& s[14] == '4'
    &&& (s[19] == '8' || s[19] == '9' || s[19] == 'a' || s[19] == 'b')
}

/// Relies on uuid::Uuid::new_v4 and its hyphenated rendering: a freshly
/// drawn random 128-bit identifier with the version and variant bits set,
/// spelled as 36 lowercase-hexadecimal characters with hyphens at positions
/// 8, 13, 18 and 23.  Which digits are drawn cannot be promised.
#[verifier::external_body]
fn fresh_uuid_string() -> (r: String)
    ensures
        is_canonical_uuid(r@),
{
    uuid::Uuid::new_v4().to_string()
}

/// Relies on std::time::SystemTime::now for the wall clock, read as whole
/// milliseconds since the Unix epoch; absent when the clock reads earlier
/// than the epoch.  Nothing can be promised of a clock reading.
#[verifier::external_body]
fn clock_millis() -> Option<u64> {
    std::time::SystemTime::now().duration_since(std::time::UNIX_EPOCH).ok().map(
        |d| d.as_millis() as u64,
    )
}

/// Wall-clock milliseconds since the Unix epoch, zero for a clock reading
/// before the epoch.  Nothing further can be promised of a clock.
pub fn current_timestamp() -> u64 {
    match clock_millis() {
        Some(t) => t,
        None => 0,
    }
}

/// A fresh span identifier: the canonical string form of a random id.
pub fn generate_span_id() -> (r: String)
    ensures
        is_canonical_uuid(r@),
        r@.len() == 36,
{
    fresh_uuid_string()
}

/// A fresh trace identifier: the canonical string form of a random id.
pub fn generate_trace_id() -> (r: String)
    ensures
        is_canonical_uuid(r@),
        r@.len() == 36,
{
    fresh_uuid_string()
}

/// The execution status of a span.
#[derive(Debug)]
pub enum SpanStatus {
    Active,
    Completed,
    Error { message: String },
}

/// The mathematical reading of a status.
pub ghost enum SpanStatusView {
    Active,
    Completed,
    Error { message: Seq<char> },
}

impl DeepView for SpanStatus {
    type V = SpanStatusView;

    open spec fn deep_view(&self) -> SpanStatusView {
        match self {
            SpanStatus::Active => SpanStatusView::Active,
            SpanStatus::Completed => SpanStatusView::Completed,
            SpanStatus::Error { message } => SpanStatusView::Error { message: message@ },
        }
    }
}

impl Clone for SpanStatus {
    /// A copy indistinguishable from the original.
    fn clone(&self) -> (r: Self)
        ensures
            r == *self,
    {
        match self {
            SpanStatus::Active => SpanStatus::Active,
            SpanStatus::Completed => SpanStatus::Completed,
            SpanStatus::Error { message } => SpanStatus::Error { message: message.clone() },
        }
    }
}

/// One traced unit of work: identified at creation, timed in milliseconds,
/// carrying caller-supplied attributes, and moving from `Active` to
/// `Completed` (or `Error`) exactly once under the store's direction.
#[derive(Debug)]
pub struct Span {
    /// Unique identifier of this span, assigned at creation.
    pub span_id: String,
    /// Identifier grouping a span with its ancestors.  Every span draws a
    /// fresh trace id, even when a parent is given: children do not inherit
    /// their parent's trace id.
    pub trace_id: String,
    /// Back-reference to the parent span's id; never checked for existence.
    pub parent_span_id: Option<String>,
    /// Caller-supplied label for the work the span covers.
    pub operation_name: String,
    /// Wall-clock milliseconds at creation.
    pub start_time: u64,
    /// Wall-clock milliseconds at completion; unset while active.
    pub end_time: Option<u64>,
    /// Attribute entries, one per key.
    pub attributes: Vec<(String, serde_json::Value)>,
    /// Where in its lifecycle the span stands.
    pub status: SpanStatus,
}

/// The mathematical reading of a span, with the attribute entries read as
/// the map they spell.
pub ghost struct SpanView {
    pub span_id: Seq<char>,
    pub trace_id: Seq<char>,
    pub parent_span_id: Option<Seq<char>>,
    pub operation_name: Seq<char>,
    pub start_time: u64,
    pub end_time: Option<u64>,
    pub attributes: Map<Seq<char>, serde_json::Value>,
    pub status: SpanStatusView,
}

impl DeepView for Span {
    type V = SpanView;

    open spec fn deep_view(&self) -> SpanView {
        SpanView {
            span_id: self.span_id@,
            trace_id: self.trace_id@,
            parent_span_id: self.parent_span_id.deep_view(),
            operation_name: self.operation_name@,
            start_time: self.start_time,
            end_time: self.end_time,
            attributes: entries_map(self.attributes@),
            status: self.status.deep_view(),
        }
    }
}

impl Span {
    /// Each attribute key names one entry.
    pub open spec fn wf(self) -> bool {
        unique_keys(self.attributes@)
    }

    /// The duration a completed span reports: the time from start to end,
    /// never below zero even on a clock anomaly.
    pub open spec fn spec_duration(self) -> Option<u64> {
        match self.end_time {
            Some(e) => Some(
                (if e >= self.start_time {
                    e - self.start_time
                } else {
                    0
                }) as u64,
            ),
            None => None,
        }
    }

    /// A fresh active span for the named operation: new identifiers, the
    /// clock's present reading as start time, no end time, no attributes.
    pub fn new(operation_name: String, parent_span_id: Option<String>) -> (r: Span)
        ensures
            r.wf(),
            r.operation_name == operation_name,
            r.parent_span_id == parent_span_id,
            r.end_time is None,
            r.status is Active,
            r.attributes@ == Seq::<(String, serde_json::Value)>::empty(),
            is_canonical_uuid(r.span_id@),
            is_canonical_uuid(r.trace_id@),
            r.span_id@.len() == 36,
            r.trace_id@.len() == 36,
    {
        let span_id = generate_span_id();
        let trace_id = generate_trace_id();
        Span {
            span_id,
            trace_id,
            parent_span_id,
            operation_name,
            start_time: current_timestamp(),
            end_time: None,
            attributes: Vec::new(),
            status: SpanStatus::Active,
        }
    }

    /// The span's duration in milliseconds, absent while it is active.
    pub fn duration_ms(&self) -> (r: Option<u64>)
        ensures
            r == self.spec_duration(),
    {
        match self.end_time {
            Some(e) => Some(e.saturating_sub(self.start_time)),
            None => None,
        }
    }

    /// Whether the span still accepts attributes and an end.
    pub fn is_active(&self) -> (r: bool)
        ensures
            r == (self.status is Active),
    {
        matches!(self.status, SpanStatus::Active)
    }

    /// Ends the span: stamps the clock's present reading as end time and
    /// marks it completed.  Everything else stays as it was.
    pub fn complete(&mut self)
        ensures
            final(self).end_time is Some,
            final(self).status is Completed,
            final(self).span_id == old(self).span_id,
            final(self).trace_id == old(self).trace_id,
            final(self).parent_span_id == old(self).parent_span_id,
            final(self).operation_name == old(self).operation_name,
            final(self).start_time == old(self).start_time,
            final(self).attributes == old(self).attributes,
    {
        self.end_time = Some(current_timestamp());
        self.status = SpanStatus::Completed;
    }

    /// Ends the span in failure: stamps the clock's present reading as end
    /// time and records the message.  Everything else stays as it was.
    pub fn error(&mut self, message: String)
        ensures
            final(self).end_time is Some,
            final(self).status == (SpanStatus::Error { message }),
            final(self).span_id == old(self).span_id,
            final(self).trace_id == old(self).trace_id,
            final(self).parent_span_id == old(self).parent_span_id,
            final(self).operation_name == old(self).operation_name,
            final(self).start_time == old(self).start_time,
            final(self).attributes == old(self).attributes,
    {
        self.end_time = Some(current_timestamp());
        self.status = SpanStatus::Error { message };
    }

    /// Inserts or overwrites one attribute.  Everything else stays as it was.
    pub fn set_attribute(&mut self, key: String, value: serde_json::Value)
        requires
            old(self).wf(),
        ensures
            final(self).wf(),
            final(self).deep_view() == (SpanView {
                attributes: old(self).deep_view().attributes.insert(key@, value),
                ..old(self).deep_view()
            }),
            final(self).span_id == old(self).span_id,
            final(self).trace_id == old(self).trace_id,
            final(self).parent_span_id == old(self).parent_span_id,
            final(self).operation_name == old(self).operation_name,
            final(self).start_time == old(self).start_time,
            final(self).end_time == old(self).end_time,
            final(self).status == old(self).status,
    {
        entries_upsert(&mut self.attributes, key, value);
    }
}

/// Law: the duration of an ended span is never negative, and it is exactly
/// `end_time - start_time` whenever the clock did not run backwards between
/// the two stamps.
pub proof fn lemma_duration_of_ended_span(s: Span)
    requires
        s.end_time is Some,
    ensures
        s.spec_duration() is Some,
        s.spec_duration()->0 >= 0,
        s.end_time->0 >= s.start_time ==> s.spec_duration()->0 == s.end_time->0 - s.start_time,
{
}

impl Clone for Span {
    /// A copy whose every part reads equal to the original's.
    fn clone(&self) -> (r: Self)
        ensures
            r.span_id == self.span_id,
            r.trace_id == self.trace_id,
            r.parent_span_id == self.parent_span_id,
            r.operation_name == self.operation_name,
            r.start_time == self.start_time,
            r.end_time == self.end_time,
            r.attributes@ == self.attributes@,
            r.status == self.status,
            r.deep_view() == self.deep_view(),
    {
        let mut attributes: Vec<(String, serde_json::Value)> = Vec::new();
        let mut i: usize = 0;
        while i < self.attributes.len()
            invariant
                i <= self.attributes@.len(),
                attributes@.len() == i,
                forall|j: int| 0 <= j < i ==> attributes@[j] == self.attributes@[j],
            decreases self.attributes@.len() - i,
        {
            let pair = &self.attributes[i];
            attributes.push((pair.0.clone(), pair.1.clone()));
            i = i + 1;
        }
        proof {
            assert(attributes@ =~= self.attributes@);
        }
        let parent_span_id = match &self.parent_span_id {
            Some(p) => Some(p.clone()),
            None => None,
        };
        Span {
            span_id: self.span_id.clone(),
            trace_id: self.trace_id.clone(),
            parent_span_id,
            operation_name: self.operation_name.clone(),
            start_time: self.start_time,
            end_time: self.end_time,
            attributes,
            status: self.status.clone(),
        }
    }
}

} // verus!
