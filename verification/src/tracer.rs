//! The trace store: span lifecycle, bounded retention, and baggage.

use vstd::prelude::*;
use crate::assoc::entries_get;
use crate::assoc::entries_map;
use crate::assoc::entries_position;
use crate::assoc::entries_remove;
use crate::assoc::entries_upsert;
use crate::assoc::lemma_entries_map_contains;
use crate::assoc::lemma_entries_map_index;
use crate::assoc::lemma_entries_map_update;
use crate::assoc::unique_keys;
use crate::config::TraceConfig;
use crate::errors::TracingError;
use crate::errors::TracingResult;
use crate::span::is_canonical_uuid;
use crate::span::Span;
use crate::span::SpanView;

verus! {

/// `post` reads as `pre` ended: completed, stamped with some end time, and
/// otherwise untouched.
pub open spec fn completes(pre: SpanView, post: SpanView) -> bool {
    &&& post.end_time is Some
    &&& post.status is Completed
    &&& post.span_id == pre.span_id
    &&& post.trace_id == pre.trace_id
    &&& post.parent_span_id == pre.parent_span_id
    &&& post.operation_name == pre.operation_name
    &&& post.start_time == pre.start_time
    &&& post.attributes == pre.attributes
}

/// `v` with one attribute inserted or overwritten.
pub open spec fn with_attribute(
    v: SpanView,
    key: Seq<char>,
    value: serde_json::Value,
) -> SpanView {
    SpanView { attributes: v.attributes.insert(key, value), ..v }
}

/// The newest `max` entries of `s`, oldest first: what strict FIFO eviction
/// retains of a completion history.
pub open spec fn retained<T>(s: Seq<T>, max: nat) -> Seq<T> {
    if s.len() <= max {
        s
    } else {
        s.skip(s.len() - max)
    }
}

/// What the store guarantees of every span it holds as active: well-formed,
/// keyed by its own id, not yet ended.
pub open spec fn active_entry_ok(k: Seq<char>, s: Span) -> bool {
    &&& s.wf()
    &&& s.span_id@ == k
    &&& s.status is Active
    &&& s.end_time is None
}

/// What the store guarantees of every span in its completion history:
/// well-formed, ended, and marked completed.
pub open spec fn completed_span_ok(s: Span) -> bool {
    &&& s.wf()
    &&& s.end_time is Some
    &&& s.status is Completed
}

/// The tracing contract: the operation set any conforming store satisfies.
///
/// A store is read through three models -- the active spans keyed by id, the
/// completed spans in completion order, and the baggage map -- plus the
/// retention bound.  Every implementation must preserve per-id exclusivity
/// between active and completed, refuse unknown or already-ended ids with
/// `InvalidSpanId`, and evict completed spans strictly oldest-first once the
/// bound is passed.
pub trait TracingManager: Sized {
    /// The spans now active, keyed by span id.
    spec fn active_view(&self) -> Map<Seq<char>, SpanView>;

    /// The retained completed spans, oldest first, in completion order.
    spec fn completed_view(&self) -> Seq<SpanView>;

    /// The baggage context: auxiliary string key/value pairs.
    spec fn baggage_view(&self) -> Map<Seq<char>, Seq<char>>;

    /// How many completed spans the store retains at most.
    spec fn max_retained(&self) -> nat;

    /// The configuration the store runs under; immutable once the store is
    /// built, so every operation preserves it.
    spec fn config_view(&self) -> TraceConfig;

    /// The store's internal well-formedness; every operation preserves it.
    spec fn inv(&self) -> bool;

    /// Starts a span: registers a fresh active span for the operation and
    /// returns its newly drawn id.  Never fails.
    fn start_span(&mut self, operation_name: &str, parent_span_id: Option<String>) -> (r:
        TracingResult<String>)
        requires
            old(self).inv(),
        ensures
            final(self).inv(),
            final(self).config_view() == old(self).config_view(),
            final(self).max_retained() == old(self).max_retained(),
            final(self).completed_view() == old(self).completed_view(),
            final(self).baggage_view() == old(self).baggage_view(),
            r is Ok,
            ({
                let id = r->Ok_0@;
                let v = final(self).active_view()[id];
                &&& is_canonical_uuid(id)
                &&& id.len() == 36
                &&& final(self).active_view().contains_key(id)
                &&& final(self).active_view() == old(self).active_view().insert(id, v)
                &&& v.span_id == id
                &&& v.operation_name == operation_name@
                &&& v.parent_span_id == parent_span_id.deep_view()
                &&& v.end_time is None
                &&& v.status is Active
                &&& v.attributes == Map::<Seq<char>, serde_json::Value>::empty()
            }),
    ;

    /// Ends a span: accepted exactly when the id is active.  On success the
    /// span leaves the active set, enters the completion history marked
    /// completed, and the history is trimmed oldest-first to the retention
    /// bound.  On failure nothing changes and the offending id is named.
    fn end_span(&mut self, span_id: String) -> (r: TracingResult<()>)
        requires
            old(self).inv(),
        ensures
            final(self).inv(),
            final(self).config_view() == old(self).config_view(),
            final(self).max_retained() == old(self).max_retained(),
            final(self).baggage_view() == old(self).baggage_view(),
            r is Ok <==> old(self).active_view().contains_key(span_id@),
            r is Err ==> {
                &&& final(self).active_view() == old(self).active_view()
                &&& final(self).completed_view() == old(self).completed_view()
                &&& r matches Err(TracingError::InvalidSpanId { span_id: bad }) && bad == span_id
            },
            r is Ok ==> ({
                let ended = old(self).active_view()[span_id@];
                let max = old(self).max_retained();
                &&& final(self).active_view() == old(self).active_view().remove(span_id@)
                &&& (max == 0 ==> final(self).completed_view() == Seq::<SpanView>::empty())
                &&& (max > 0 ==> final(self).completed_view().len() > 0 && ({
                    let done = final(self).completed_view().last();
                    &&& completes(ended, done)
                    &&& final(self).completed_view() == retained(
                        old(self).completed_view().push(done),
                        max,
                    )
                }))
            }),
    ;

    /// Adds metadata to an active span: accepted exactly when the id is
    /// active, whether or not the key is already present.  On failure
    /// nothing changes and the offending id is named.
    fn add_span_attribute(&mut self, span_id: &str, key: &str, value: serde_json::Value) -> (r:
        TracingResult<()>)
        requires
            old(self).inv(),
        ensures
            final(self).inv(),
            final(self).config_view() == old(self).config_view(),
            final(self).max_retained() == old(self).max_retained(),
            final(self).completed_view() == old(self).completed_view(),
            final(self).baggage_view() == old(self).baggage_view(),
            r is Ok <==> old(self).active_view().contains_key(span_id@),
            r is Err ==> {
                &&& final(self).active_view() == old(self).active_view()
                &&& r matches Err(TracingError::InvalidSpanId { span_id: bad }) && bad@ == span_id@
            },
            r is Ok ==> final(self).active_view() == old(self).active_view().insert(
                span_id@,
                with_attribute(old(self).active_view()[span_id@], key@, value),
            ),
    ;

    /// A snapshot copy of the retained completed spans, oldest first.
    fn get_completed_spans(&self) -> (r: Vec<Span>)
        requires
            self.inv(),
        ensures
            r.deep_view() == self.completed_view(),
            r@.len() <= self.max_retained(),
            forall|i: int| 0 <= i < r@.len() ==> completed_span_ok(#[trigger] r@[i]),
    ;

    /// Upserts one baggage entry; never fails.
    fn set_baggage(&mut self, key: &str, value: &str)
        requires
            old(self).inv(),
        ensures
            final(self).inv(),
            final(self).config_view() == old(self).config_view(),
            final(self).max_retained() == old(self).max_retained(),
            final(self).active_view() == old(self).active_view(),
            final(self).completed_view() == old(self).completed_view(),
            final(self).baggage_view() == old(self).baggage_view().insert(key@, value@),
    ;

    /// Looks one baggage entry up, absent exactly when the key was never set.
    fn get_baggage(&self, key: &str) -> (r: Option<String>)
        requires
            self.inv(),
        ensures
            r is Some <==> self.baggage_view().contains_key(key@),
            r matches Some(v) ==> v@ == self.baggage_view()[key@],
    ;
}

/// The in-memory store: active spans, a bounded completion history, and
/// baggage, each kept as an association list behind its model.
pub struct SimpleTracer {
    config: TraceConfig,
    active_spans: Vec<(String, Span)>,
    completed_spans: Vec<Span>,
    baggage: Vec<(String, String)>,
}

impl SimpleTracer {
    /// The active spans as executable values, keyed by span id.
    pub closed spec fn active_map(self) -> Map<Seq<char>, Span> {
        entries_map(self.active_spans@)
    }

    /// A fresh store for the given configuration, holding nothing yet.
    pub fn new(config: TraceConfig) -> (r: SimpleTracer)
        ensures
            r.inv(),
            r.config_view() == config,
            r.max_retained() == config.max_spans,
            r.active_view() == Map::<Seq<char>, SpanView>::empty(),
            r.completed_view() == Seq::<SpanView>::empty(),
            r.baggage_view() == Map::<Seq<char>, Seq<char>>::empty(),
    {
        let r = SimpleTracer {
            config,
            active_spans: Vec::new(),
            completed_spans: Vec::new(),
            baggage: Vec::new(),
        };
        proof {
            assert(r.active_view() =~= Map::<Seq<char>, SpanView>::empty());
            assert(r.completed_view() =~= Seq::<SpanView>::empty());
            assert(r.baggage_view() =~= Map::<Seq<char>, Seq<char>>::empty());
        }
        r
    }

    /// The configuration the store runs under.
    pub fn config(&self) -> (r: &TraceConfig)
        ensures
            *r == self.config_view(),
    {
        &self.config
    }
}

impl Default for SimpleTracer {
    /// A store for a service named `default-service`, with the default
    /// configuration.
    fn default() -> (r: SimpleTracer)
        ensures
            r.inv(),
            r.config_view().service_name@ == "default-service"@,
            r.config_view().environment == crate::config::Environment::Development,
            r.config_view().sampling_rate_ppm == crate::config::RATE_SCALE_PPM,
            r.config_view().max_spans == crate::config::DEFAULT_MAX_SPANS,
            r.max_retained() == crate::config::DEFAULT_MAX_SPANS,
            r.active_view() == Map::<Seq<char>, SpanView>::empty(),
            r.completed_view() == Seq::<SpanView>::empty(),
            r.baggage_view() == Map::<Seq<char>, Seq<char>>::empty(),
    {
        SimpleTracer::new(TraceConfig::new("default-service"))
    }
}

impl TracingManager for SimpleTracer {
    closed spec fn active_view(&self) -> Map<Seq<char>, SpanView> {
        entries_map(self.active_spans@).map_values(|s: Span| s.deep_view())
    }

    closed spec fn completed_view(&self) -> Seq<SpanView> {
        self.completed_spans.deep_view()
    }

    closed spec fn baggage_view(&self) -> Map<Seq<char>, Seq<char>> {
        entries_map(self.baggage@).map_values(|v: String| v@)
    }

    closed spec fn max_retained(&self) -> nat {
        self.config.max_spans as nat
    }

    closed spec fn config_view(&self) -> TraceConfig {
        self.config
    }

    closed spec fn inv(&self) -> bool {
        &&& unique_keys(self.active_spans@)
        &&& forall|k: Seq<char>|
            #[trigger] self.active_map().contains_key(k) ==> active_entry_ok(
                k,
                self.active_map()[k],
            )
        &&& unique_keys(self.baggage@)
        &&& self.completed_spans@.len() <= self.config.max_spans
        &&& forall|i: int|
            0 <= i < self.completed_spans@.len() ==> completed_span_ok(
                #[trigger] self.completed_spans@[i],
            )
    }

    fn start_span(&mut self, operation_name: &str, parent_span_id: Option<String>) -> (r:
        TracingResult<String>) {
        let span = Span::new(operation_name.to_owned(), parent_span_id);
        let id = span.span_id.clone();
        let ghost pre = *self;
        let ghost new_span = span;
        entries_upsert(&mut self.active_spans, id.clone(), span);
        proof {
            assert(self.active_map() =~= pre.active_map().insert(id@, new_span));
            assert(self.active_view() =~= pre.active_view().insert(id@, new_span.deep_view()));
            assert(new_span.deep_view().attributes =~= Map::<Seq<char>, serde_json::Value>::empty());
            assert forall|k: Seq<char>| #[trigger] self.active_map().contains_key(k) implies
                active_entry_ok(k, self.active_map()[k]) by {
                if k != id@ {
                    assert(pre.active_map().contains_key(k));
                }
            }
        }
        Ok(id)
    }

    fn end_span(&mut self, span_id: String) -> (r: TracingResult<()>) {
        let ghost pre = *self;
        match entries_remove(&mut self.active_spans, span_id.as_str()) {
            Some(mut span) => {
                proof {
                    assert(pre.active_map().contains_key(span_id@));
                    assert(self.active_map() =~= pre.active_map().remove(span_id@));
                    assert(self.active_view() =~= pre.active_view().remove(span_id@));
                }
                let ghost ended = span.deep_view();
                span.complete();
                proof {
                    assert(span.deep_view().attributes =~= ended.attributes);
                    assert(completes(ended, span.deep_view()));
                }
                let ghost done = span.deep_view();
                let ghost pre_completed = self.completed_spans.deep_view();
                self.completed_spans.push(span);
                let ghost all = pre_completed.push(done);
                let ghost all_spans = self.completed_spans@;
                let ghost active_snap = self.active_spans@;
                let ghost baggage_snap = self.baggage@;
                proof {
                    assert(self.completed_spans.deep_view() =~= all);
                }
                while self.completed_spans.len() > self.config.max_spans
                    invariant
                        self.config == pre.config,
                        self.active_spans@ == active_snap,
                        self.baggage@ == baggage_snap,
                        self.completed_spans@.len() <= all_spans.len(),
                        self.completed_spans@ == all_spans.skip(
                            all_spans.len() - self.completed_spans@.len(),
                        ),
                        self.completed_spans@.len() == all_spans.len()
                            || self.completed_spans@.len() >= self.config.max_spans,
                        forall|i: int|
                            0 <= i < all_spans.len() ==> completed_span_ok(
                                #[trigger] all_spans[i],
                            ),
                    decreases self.completed_spans@.len(),
                {
                    self.completed_spans.remove(0);
                    proof {
                        assert(self.completed_spans@ =~= all_spans.skip(
                            all_spans.len() - self.completed_spans@.len(),
                        ));
                    }
                }
                proof {
                    let n = self.completed_spans@.len();
                    assert(self.completed_spans.deep_view() =~= all.skip(all.len() - n));
                    assert(self.completed_view() == retained(all, self.config.max_spans as nat));
                    if self.config.max_spans > 0 {
                        assert(n > 0);
                        assert(self.completed_view().last() == all.last());
                        assert(all.last() == done);
                    }
                    assert forall|j: int| 0 <= j < self.completed_spans@.len() implies
                        completed_span_ok(#[trigger] self.completed_spans@[j]) by {
                        assert(self.completed_spans@[j] == all_spans[all_spans.len() - self.completed_spans@.len() + j]);
                    }
                    assert forall|k: Seq<char>| #[trigger] self.active_map().contains_key(k)
                        implies active_entry_ok(k, self.active_map()[k]) by {
                        assert(pre.active_map().contains_key(k));
                    }
                }
                Ok(())
            },
            None => {
                proof {
                    lemma_entries_map_contains(self.active_spans@, span_id@);
                    assert forall|k: Seq<char>| #[trigger] self.active_map().contains_key(k)
                        implies active_entry_ok(k, self.active_map()[k]) by {
                        assert(self.active_map() == pre.active_map());
                    }
                }
                Err(TracingError::InvalidSpanId { span_id })
            },
        }
    }

    fn add_span_attribute(&mut self, span_id: &str, key: &str, value: serde_json::Value) -> (r:
        TracingResult<()>) {
        let ghost pre = *self;
        match entries_position(&self.active_spans, span_id) {
            Some(i) => {
                proof {
                    lemma_entries_map_index(self.active_spans@, i as int);
                    assert(self.active_map().contains_key(span_id@));
                    assert(active_entry_ok(span_id@, self.active_map()[span_id@]));
                    assert(self.active_spans@[i as int].1.wf());
                }
                let entry = &mut self.active_spans[i];
                entry.1.set_attribute(key.to_owned(), value);
                proof {
                    let p = self.active_spans@[i as int];
                    assert(self.active_spans@ == pre.active_spans@.update(i as int, p));
                    lemma_entries_map_update(pre.active_spans@, i as int, p);
                    assert(self.active_map() =~= pre.active_map().insert(span_id@, p.1));
                    assert(self.active_view() =~= pre.active_view().insert(
                        span_id@,
                        with_attribute(pre.active_view()[span_id@], key@, value),
                    ));
                    assert forall|k: Seq<char>| #[trigger] self.active_map().contains_key(k)
                        implies active_entry_ok(k, self.active_map()[k]) by {
                        if k != span_id@ {
                            assert(pre.active_map().contains_key(k));
                        }
                    }
                }
                Ok(())
            },
            None => {
                proof {
                    lemma_entries_map_contains(self.active_spans@, span_id@);
                }
                Err(TracingError::InvalidSpanId { span_id: span_id.to_owned() })
            },
        }
    }

    fn get_completed_spans(&self) -> (r: Vec<Span>) {
        let mut out: Vec<Span> = Vec::new();
        let mut i: usize = 0;
        while i < self.completed_spans.len()
            invariant
                i <= self.completed_spans@.len(),
                out@.len() == i,
                forall|j: int|
                    0 <= j < i ==> (#[trigger] out@[j]).deep_view()
                        == self.completed_spans@[j].deep_view(),
                forall|j: int| 0 <= j < i ==> completed_span_ok(#[trigger] out@[j]),
                forall|j: int|
                    0 <= j < self.completed_spans@.len() ==> completed_span_ok(
                        #[trigger] self.completed_spans@[j],
                    ),
                self.completed_spans@.len() <= self.max_retained(),
            decreases self.completed_spans@.len() - i,
        {
            let copied = self.completed_spans[i].clone();
            out.push(copied);
            i = i + 1;
        }
        proof {
            assert(out.deep_view() =~= self.completed_view());
        }
        out
    }

    fn set_baggage(&mut self, key: &str, value: &str) {
        let ghost pre = *self;
        entries_upsert(&mut self.baggage, key.to_owned(), value.to_owned());
        proof {
            assert(self.baggage_view() =~= pre.baggage_view().insert(key@, value@));
            assert forall|k: Seq<char>| #[trigger] self.active_map().contains_key(k) implies
                active_entry_ok(k, self.active_map()[k]) by {
                assert(self.active_map() == pre.active_map());
            }
        }
    }

    fn get_baggage(&self, key: &str) -> (r: Option<String>) {
        match entries_get(&self.baggage, key) {
            Some(v) => Some(v.clone()),
            None => None,
        }
    }
}

/// Law: a span id returned by `start_span` is accepted exactly once by
/// `end_span`.  `start_span` leaves its id in the active set -- the premise
/// here -- which is precisely the condition under which `end_span` accepts;
/// that end removes the id, after which a second `end_span` of the same id,
/// with no fresh start of that id between, is refused with `InvalidSpanId`.
pub proof fn lemma_span_id_accepted_exactly_once(
    after_start: Map<Seq<char>, SpanView>,
    id: Seq<char>,
)
    requires
        after_start.contains_key(id),
    ensures
        after_start.contains_key(id),
        !after_start.remove(id).contains_key(id),
{
}

/// Law: `add_span_attribute` is accepted exactly when the span id is active
/// (its own contract states the equivalence).  In particular it is refused
/// on a fresh store, where nothing is active, and refused again as soon as
/// `end_span` has removed the id.
pub proof fn lemma_attribute_requires_active(active: Map<Seq<char>, SpanView>, id: Seq<char>)
    ensures
        !Map::<Seq<char>, SpanView>::empty().contains_key(id),
        !active.remove(id).contains_key(id),
{
}

/// Law: the completion history never passes the retention bound, and what
/// strict FIFO eviction keeps is exactly the newest entries, kept in their
/// completion order.
pub proof fn lemma_retained_is_newest<T>(s: Seq<T>, max: nat)
    ensures
        retained(s, max).len() <= max || retained(s, max) == s,
        s.len() <= max ==> retained(s, max) == s,
        s.len() > max ==> retained(s, max).len() == max,
        forall|i: int|
            0 <= i < retained(s, max).len() ==> retained(s, max)[i] == s[s.len() - retained(
                s,
                max,
            ).len() + i],
{
}

/// Law: baggage round-trips.  After `set_baggage(k, v)`, a `get_baggage(k)`
/// finds exactly `v`, while a key never set stays absent.
pub proof fn lemma_baggage_round_trip(
    baggage: Map<Seq<char>, Seq<char>>,
    k: Seq<char>,
    v: Seq<char>,
    unset: Seq<char>,
)
    requires
        !baggage.contains_key(unset),
        unset != k,
    ensures
        baggage.insert(k, v).contains_key(k),
        baggage.insert(k, v)[k] == v,
        !baggage.insert(k, v).contains_key(unset),
{
}

} // verus!
