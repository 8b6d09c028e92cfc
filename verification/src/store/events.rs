//! Ordered event log reads: filters and cursor pages.

use vstd::prelude::*;
use crate::envelope::{Envelope, Kind};
use crate::text::str_eq;

verus! {

/// Selects envelopes of the event log; every field that is set must match.
#[derive(Debug)]
pub struct EventFilter {
    /// Envelopes whose `from` or `to` equals this id.
    pub instance: Option<String>,
    pub kind: Option<Kind>,
    /// Only envelopes addressed to this id.
    pub to: Option<String>,
}

/// One logged envelope with its sequence number.
#[derive(Debug)]
pub struct SeqEnvelope {
    pub seq: i64,
    pub envelope: Envelope,
}

/// One page of the event log. `cursor` is the sequence number of the last
/// row scanned, filtered-out and unreadable rows included.
#[derive(Debug)]
pub struct EventsPage {
    pub events: Vec<SeqEnvelope>,
    pub cursor: i64,
}

/// Whether the optional string `o` is present and equal to `s`.
pub open spec fn is_some_eq(o: Option<String>, s: Seq<char>) -> bool {
    o matches Some(x) && x@ == s
}

/// Whether `f` admits `e`.
pub open spec fn filter_accepts(f: EventFilter, e: Envelope) -> bool {
    &&& (f.kind matches Some(k) ==> e.kind == k)
    &&& (f.to matches Some(t) ==> is_some_eq(e.to, t@))
    &&& (f.instance matches Some(i) ==> e.from@ == i@ || is_some_eq(e.to, i@))
}

/// The events a page keeps of the scanned rows: readable rows that the
/// filter admits, in scan order.
pub open spec fn page_events(rows: Seq<(i64, Option<Envelope>)>, f: EventFilter) -> Seq<SeqEnvelope>
    decreases rows.len(),
{
    if rows.len() == 0 {
        Seq::empty()
    } else {
        let last = rows.last();
        let before = page_events(rows.drop_last(), f);
        match last.1 {
            Some(e) => if filter_accepts(f, e) {
                before.push(SeqEnvelope { seq: last.0, envelope: e })
            } else {
                before
            },
            None => before,
        }
    }
}

/// The cursor after scanning `rows` from `after`.
pub open spec fn page_cursor(after: i64, rows: Seq<(i64, Option<Envelope>)>) -> i64 {
    if rows.len() == 0 {
        after
    } else {
        rows.last().0
    }
}

impl EventFilter {
    /// The filter that admits everything.
    pub fn any() -> (f: EventFilter)
        ensures
            f.instance is None && f.kind is None && f.to is None,
    {
        EventFilter { instance: None, kind: None, to: None }
    }
}

impl Default for EventFilter {
    fn default() -> (f: EventFilter)
        ensures
            f.instance is None && f.kind is None && f.to is None,
    {
        EventFilter::any()
    }
}

fn opt_str_eq(o: &Option<String>, s: &str) -> (r: bool)
    ensures
        r == is_some_eq(*o, s@),
{
    match o {
        Some(x) => str_eq(x.as_str(), s),
        None => false,
    }
}

/// Whether `filter` admits `env`.
pub fn matches_filter(filter: &EventFilter, env: &Envelope) -> (r: bool)
    ensures
        r == filter_accepts(*filter, *env),
{
    if let Some(kind) = &filter.kind {
        if env.kind != *kind {
            return false;
        }
    }
    if let Some(to) = &filter.to {
        if !opt_str_eq(&env.to, to.as_str()) {
            return false;
        }
    }
    if let Some(id) = &filter.instance {
        let hit = str_eq(env.from.as_str(), id.as_str()) || opt_str_eq(&env.to, id.as_str());
        if !hit {
            return false;
        }
    }
    true
}

impl EventsPage {
    /// Builds the page for rows scanned after `after_seq`, in sequence
    /// order; a row whose text did not parse is `None`.
    pub fn from_rows(after_seq: i64, rows: Vec<(i64, Option<Envelope>)>, filter: &EventFilter) -> (p: EventsPage)
        ensures
            p.events@ == page_events(rows@, *filter),
            p.cursor == page_cursor(after_seq, rows@),
    {
        let ghost all = rows@;
        let mut rows = rows;
        let mut page = EventsPage { events: Vec::new(), cursor: after_seq };
        let mut n: usize = 0;
        let total = rows.len();
        while rows.len() > 0
            invariant
                all.len() == total,
                n + rows@.len() == total,
                rows@ == all.skip(n as int),
                page.events@ == page_events(all.take(n as int), *filter),
                page.cursor == page_cursor(after_seq, all.take(n as int)),
            decreases rows@.len(),
        {
            let (seq, parsed) = rows.remove(0);
            proof {
                assert(all.take(n + 1).drop_last() =~= all.take(n as int));
                assert(all.take(n + 1).last() == all[n as int]);
                assert(all[n as int] == (seq, parsed));
                assert(rows@ =~= all.skip(n + 1));
            }
            page.cursor = seq;
            match parsed {
                Some(envelope) => {
                    if matches_filter(filter, &envelope) {
                        page.events.push(SeqEnvelope { seq, envelope });
                    }
                },
                None => {},
            }
            n = n + 1;
        }
        proof {
            assert(all.take(n as int) =~= all);
        }
        page
    }
}

/// Reading a log in two pages, the second resuming at the first page's
/// cursor, gives exactly the events of reading it in one: nothing is lost
/// and nothing repeats.
pub proof fn lemma_pages_concatenate(
    first: Seq<(i64, Option<Envelope>)>,
    second: Seq<(i64, Option<Envelope>)>,
    f: EventFilter,
)
    ensures
        page_events(first + second, f) == page_events(first, f) + page_events(second, f),
    decreases second.len(),
{
    if second.len() == 0 {
        assert(first + second =~= first);
        assert(page_events(first, f) + page_events(second, f) =~= page_events(first, f));
    } else {
        lemma_pages_concatenate(first, second.drop_last(), f);
        assert((first + second).drop_last() =~= first + second.drop_last());
        assert((first + second).last() == second.last());
        let l = second.last();
        match l.1 {
            Some(e) => if filter_accepts(f, e) {
                assert(page_events(first, f) + page_events(second, f) =~= (page_events(first, f)
                    + page_events(second.drop_last(), f)).push(SeqEnvelope { seq: l.0, envelope: e }));
            } else {
            },
            None => {},
        }
    }
}

/// The cursor never goes back: after rows whose sequence numbers exceed
/// `after`, the cursor is at least `after`.
pub proof fn lemma_cursor_advances(after: i64, rows: Seq<(i64, Option<Envelope>)>)
    requires
        forall|i: int| 0 <= i < rows.len() ==> after < (#[trigger] rows[i]).0,
    ensures
        after <= page_cursor(after, rows),
        rows.len() > 0 ==> after < page_cursor(after, rows),
{
    if rows.len() > 0 {
        assert(after < rows[rows.len() - 1].0);
    }
}

/// Every event on a page is admitted by the filter.
pub proof fn lemma_page_respects_filter(rows: Seq<(i64, Option<Envelope>)>, f: EventFilter, i: int)
    requires
        0 <= i < page_events(rows, f).len(),
    ensures
        filter_accepts(f, page_events(rows, f)[i].envelope),
    decreases rows.len(),
{
    if rows.len() > 0 {
        let before = page_events(rows.drop_last(), f);
        if i < before.len() {
            lemma_page_respects_filter(rows.drop_last(), f, i);
        }
    }
}

/// An event filter admits exactly the envelopes that meet each filter it
/// sets: the kind, the recipient, and, for an instance, the envelopes that
/// instance sent or that are addressed to it.
pub proof fn lemma_filter_meaning(f: EventFilter, e: Envelope)
    ensures
        filter_accepts(f, e) <==> {
            &&& (f.kind is None || f.kind == Some(e.kind))
            &&& (f.to is None || (e.to is Some && e.to->0@ == f.to->0@))
            &&& (f.instance is None || e.from@ == f.instance->0@ || (e.to is Some && e.to->0@ == f.instance->0@))
        },
{
}

} // verus!
