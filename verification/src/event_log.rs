//! The recent gameplay events of the tracked characters, kept for a
//! retention window so that a clip can be matched with what happened in it.
use vstd::prelude::*;
use std::collections::VecDeque;
use crate::census::ClassifiedEvent;

verus! {

broadcast use vstd::std_specs::vecdeque::group_vec_dequeue_axioms;

/// Events in the order they were appended, with a retention window in
/// seconds.
#[derive(Debug)]
pub struct EventLog {
    retention_secs: u32,
    events: VecDeque<ClassifiedEvent>,
}

/// `s` without the events at its front that are older than `cutoff`.
pub open spec fn drop_expired(s: Seq<ClassifiedEvent>, cutoff: int) -> Seq<ClassifiedEvent>
    decreases s.len(),
{
    if s.len() > 0 && s[0].timestamp < cutoff {
        drop_expired(s.drop_first(), cutoff)
    } else {
        s
    }
}

/// The events of `s` whose time lies in `start..=end`, in order.
pub open spec fn in_range(s: Seq<ClassifiedEvent>, start: i64, end: i64) -> Seq<ClassifiedEvent> {
    s.filter(|e: ClassifiedEvent| start <= e.timestamp && e.timestamp <= end)
}

impl EventLog {
    /// The events held, oldest first.
    pub closed spec fn events(self) -> Seq<ClassifiedEvent> {
        self.events@
    }

    /// How long events are kept, in seconds; never less than one.
    pub closed spec fn retention(self) -> int {
        self.retention_secs as int
    }

    pub closed spec fn wf(self) -> bool {
        self.retention_secs >= 1
    }

    /// An empty log keeping events for `retention_secs` seconds (at least
    /// one).
    pub fn new(retention_secs: u32) -> (r: Self)
        ensures
            r.wf(),
            r.events() == Seq::<ClassifiedEvent>::empty(),
            r.retention() == if retention_secs >= 1 { retention_secs as int } else { 1 },
    {
        EventLog { retention_secs: if retention_secs >= 1 { retention_secs } else { 1 }, events: VecDeque::new() }
    }

    /// Changes how long events are kept (at least one second).
    pub fn set_retention_secs(&mut self, retention_secs: u32)
        ensures
            final(self).wf(),
            final(self).events() == old(self).events(),
            final(self).retention() == if retention_secs >= 1 { retention_secs as int } else { 1 },
    {
        self.retention_secs = if retention_secs >= 1 { retention_secs } else { 1 };
    }

    /// Drops the events at the front that are older than the retention
    /// window before `now`.
    pub fn prune(&mut self, now: i64)
        requires
            old(self).wf(),
        ensures
            final(self).wf(),
            final(self).retention() == old(self).retention(),
            final(self).events() == drop_expired(old(self).events(), now - old(self).retention()),
    {
        let cutoff: i128 = (now as i128) - (self.retention_secs as i128);
        while self.events.len() > 0 && (self.events[0].timestamp as i128) < cutoff
            invariant
                self.retention_secs == old(self).retention_secs,
                cutoff == now - old(self).retention(),
                drop_expired(old(self).events(), cutoff as int) == drop_expired(self.events@, cutoff as int),
            decreases self.events.len(),
        {
            let ghost before = self.events@;
            let _ = self.events.pop_front();
            assert(self.events@ =~= before.drop_first());
        }
    }

    /// Appends an event and drops what its time makes expired.
    pub fn append(&mut self, event: ClassifiedEvent)
        requires
            old(self).wf(),
        ensures
            final(self).wf(),
            final(self).retention() == old(self).retention(),
            final(self).events() == drop_expired(old(self).events().push(event), event.timestamp - old(self).retention()),
    {
        let timestamp = event.timestamp;
        self.events.push_back(event);
        self.prune(timestamp);
    }

    /// The events whose time lies in `start..=end`, in order; none when the
    /// range is empty.
    pub fn query_range(&self, start: i64, end: i64) -> (r: Vec<ClassifiedEvent>)
        ensures
            r@ == (if end < start { Seq::<ClassifiedEvent>::empty() } else { in_range(self.events(), start, end) }),
    {
        let mut out: Vec<ClassifiedEvent> = Vec::new();
        if end < start {
            return out;
        }
        let mut i: usize = 0;
        while i < self.events.len()
            invariant
                i <= self.events.len(),
                out@ == in_range(self.events@.take(i as int), start, end),
            decreases self.events.len() - i,
        {
            let e = self.events[i];
            proof {
                let t = self.events@.take(i + 1);
                assert(t.drop_last() =~= self.events@.take(i as int));
                assert(t.last() == e);
                reveal(Seq::filter);
            }
            if start <= e.timestamp && e.timestamp <= end {
                out.push(e);
            }
            i = i + 1;
        }
        assert(self.events@.take(self.events.len() as int) =~= self.events@);
        out
    }

    /// Forgets every event.
    pub fn clear(&mut self)
        ensures
            final(self).wf() == old(self).wf(),
            final(self).retention() == old(self).retention(),
            final(self).events() == Seq::<ClassifiedEvent>::empty(),
    {
        self.events.clear();
    }
}

/// After pruning, the oldest event kept is inside the window.
pub proof fn lemma_prune_keeps_window(s: Seq<ClassifiedEvent>, cutoff: int)
    ensures
        drop_expired(s, cutoff).len() > 0 ==> drop_expired(s, cutoff)[0].timestamp >= cutoff,
        drop_expired(s, cutoff).len() <= s.len(),
        drop_expired(s, cutoff) == s.skip(s.len() - drop_expired(s, cutoff).len()),
    decreases s.len(),
{
    if s.len() > 0 && s[0].timestamp < cutoff {
        lemma_prune_keeps_window(s.drop_first(), cutoff);
        let d = drop_expired(s.drop_first(), cutoff);
        assert(s.drop_first().skip(s.drop_first().len() - d.len()) =~= s.skip(s.len() - d.len()));
    } else {
        assert(s.skip(0) =~= s);
    }
}

/// An appended event is kept: it is the newest event of the log.
pub proof fn lemma_append_keeps_event(s: Seq<ClassifiedEvent>, event: ClassifiedEvent, retention: int)
    requires
        retention >= 1,
    ensures
        drop_expired(s.push(event), event.timestamp - retention).len() > 0,
        drop_expired(s.push(event), event.timestamp - retention).last() == event,
    decreases s.len(),
{
    if s.len() > 0 && s[0].timestamp < event.timestamp - retention {
        assert(s.push(event).drop_first() =~= s.drop_first().push(event));
        lemma_append_keeps_event(s.drop_first(), event, retention);
    } else if s.len() == 0 {
        assert(s.push(event)[0] == event);
    }
}

/// A range query gives events of the log, and each lies in the range.
pub proof fn lemma_query_within_range(s: Seq<ClassifiedEvent>, start: i64, end: i64, i: int)
    requires
        0 <= i < in_range(s, start, end).len(),
    ensures
        start <= in_range(s, start, end)[i].timestamp <= end,
        s.contains(in_range(s, start, end)[i]),
{
    let p = |e: ClassifiedEvent| start <= e.timestamp && e.timestamp <= end;
    s.lemma_filter_pred(p, i);
    assert(in_range(s, start, end).contains(in_range(s, start, end)[i]));
    s.lemma_filter_contains_rev(p, in_range(s, start, end)[i]);
}

} // verus!
