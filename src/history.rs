use vstd::prelude::*;
use crate::input::RawEvent;
use crate::normalize::{apply_event, event_step};
use crate::snapshot::{Snapshot, SnapshotModel, zero_model};

verus! {

/// Bound on the number of kept snapshots: a push that brings the length to
/// this bound evicts the oldest entry.
pub const CAPACITY: usize = 24;

/// History after appending `s` to `h`: the oldest entry is dropped when the
/// length reaches `CAPACITY`.
pub open spec fn pushed(h: Seq<SnapshotModel>, s: SnapshotModel) -> Seq<SnapshotModel> {
    if h.len() + 1 >= CAPACITY {
        h.push(s).subrange(1, h.len() + 1 as int)
    } else {
        h.push(s)
    }
}

/// Result of folding `events`, in order, into `m`.
pub open spec fn fold_events(m: SnapshotModel, events: Seq<RawEvent>) -> SnapshotModel
    decreases events.len(),
{
    if events.len() == 0 {
        m
    } else {
        event_step(fold_events(m, events.drop_last()), events.last())
    }
}

/// History after one frame with the given events: a reset to the single
/// neutral snapshot when the device disconnected, else the latest snapshot
/// with the events folded in, pushed.
pub open spec fn frame_step(h: Seq<SnapshotModel>, events: Seq<RawEvent>) -> Seq<SnapshotModel> {
    if events.contains(RawEvent::Disconnected) {
        seq![zero_model()]
    } else {
        pushed(h, fold_events(h.last(), events))
    }
}

/// A well-formed history: between 1 and `CAPACITY - 1` entries at rest,
/// each well formed.
pub open spec fn valid_history(h: Seq<SnapshotModel>) -> bool {
    &&& 1 <= h.len() < CAPACITY
    &&& forall|i: int| 0 <= i < h.len() ==> (#[trigger] h[i]).wf()
}

/// Bounded, chronological history of snapshots, oldest first.
pub struct HistoryBuffer {
    entries: Vec<Snapshot>,
}

impl View for HistoryBuffer {
    type V = Seq<SnapshotModel>;

    closed spec fn view(&self) -> Seq<SnapshotModel> {
        self.entries@.map_values(|s: Snapshot| s@)
    }
}

impl HistoryBuffer {
    pub open spec fn wf(&self) -> bool {
        valid_history(self@)
    }

    /// A history holding one neutral snapshot.
    pub fn new() -> (r: HistoryBuffer)
        ensures
            r.wf(),
            r@ == seq![zero_model()],
    {
        let mut entries: Vec<Snapshot> = Vec::new();
        entries.push(Snapshot::zero());
        let r = HistoryBuffer { entries };
        assert(r@ =~= seq![zero_model()]);
        r
    }

    /// Number of kept snapshots.
    pub fn len(&self) -> (r: usize)
        ensures
            r == self@.len(),
    {
        self.entries.len()
    }

    /// The snapshot at position `i`, oldest first.
    pub fn get(&self, i: usize) -> (r: &Snapshot)
        requires
            i < self@.len(),
        ensures
            r@ == self@[i as int],
    {
        &self.entries[i]
    }

    /// The most recently pushed snapshot.
    pub fn latest(&self) -> (r: &Snapshot)
        requires
            self.wf(),
        ensures
            r@ == self@.last(),
            r.wf(),
    {
        let n = self.entries.len();
        &self.entries[n - 1]
    }

    /// Appends `s`, then evicts the oldest entry if the length reached `CAPACITY`.
    pub fn push(&mut self, s: Snapshot)
        requires
            old(self).wf(),
            s.wf(),
        ensures
            final(self).wf(),
            final(self)@ == pushed(old(self)@, s@),
    {
        let ghost h = self@;
        self.entries.push(s);
        assert(self@ =~= h.push(s@));
        if self.entries.len() >= CAPACITY {
            self.entries.remove(0);
            assert(self@ =~= h.push(s@).subrange(1, h.len() + 1 as int));
        }
        proof {
            lemma_bounded_length(h, s@);
        }
    }

    /// Discards every entry and seeds the history with one neutral snapshot.
    pub fn reset(&mut self)
        ensures
            final(self).wf(),
            final(self)@ == seq![zero_model()],
    {
        *self = HistoryBuffer::new();
    }

    /// The kept snapshots, newest first.
    pub fn newest_first(&self) -> (r: Vec<Snapshot>)
        ensures
            r@.len() == self@.len(),
            forall|i: int| 0 <= i < r@.len() ==> (#[trigger] r@[i])@ == self@[self@.len() - 1 - i],
    {
        let n = self.entries.len();
        let mut r: Vec<Snapshot> = Vec::new();
        let mut k: usize = 0;
        while k < n
            invariant
                n == self@.len(),
                k <= n,
                r@.len() == k,
                forall|i: int| 0 <= i < k ==> (#[trigger] r@[i])@ == self@[n - 1 - i],
            decreases n - k,
        {
            r.push(self.entries[n - 1 - k].clone());
            k = k + 1;
        }
        r
    }

    /// Runs one frame: folds `events` into a copy of the latest snapshot and
    /// pushes the result, or resets the history if any event is a disconnect.
    pub fn run_frame(&mut self, events: &Vec<RawEvent>)
        requires
            old(self).wf(),
        ensures
            final(self).wf(),
            final(self)@ == frame_step(old(self)@, events@),
    {
        let ghost h = self@;
        let mut working = self.latest().clone();
        let mut disconnected = false;
        let mut i: usize = 0;
        while i < events.len()
            invariant
                self@ == h,
                valid_history(h),
                i <= events@.len(),
                working.wf(),
                working@ == fold_events(h.last(), events@.take(i as int)),
                disconnected == events@.take(i as int).contains(RawEvent::Disconnected),
            decreases events@.len() - i,
        {
            let e = events[i];
            proof {
                let t = events@.take(i as int + 1);
                assert(t.drop_last() == events@.take(i as int));
                assert(t.last() == e);
                lemma_contains_push(events@.take(i as int), e, RawEvent::Disconnected);
                assert(t == events@.take(i as int).push(e));
            }
            if apply_event(&mut working, e) {
                disconnected = true;
            }
            i = i + 1;
        }
        proof {
            assert(events@.take(events@.len() as int) == events@);
        }
        if disconnected {
            self.reset();
        } else {
            self.push(working);
        }
    }
}

proof fn lemma_contains_push(s: Seq<RawEvent>, e: RawEvent, x: RawEvent)
    ensures
        s.push(e).contains(x) == (s.contains(x) || e == x),
{
    if s.push(e).contains(x) && e != x {
        let k = choose|k: int| 0 <= k < s.len() + 1 && s.push(e)[k] == x;
        assert(s[k] == x);
    }
    if s.contains(x) {
        let k = choose|k: int| 0 <= k < s.len() && s[k] == x;
        assert(s.push(e)[k] == x);
    }
    if e == x {
        assert(s.push(e)[s.len() as int] == x);
    }
}

/// The history never holds more than `CAPACITY` snapshots and never
/// becomes empty, whatever is pushed.
pub proof fn lemma_bounded_length(h: Seq<SnapshotModel>, s: SnapshotModel)
    requires
        valid_history(h),
        s.wf(),
    ensures
        1 <= pushed(h, s).len() <= CAPACITY,
        valid_history(pushed(h, s)),
{
    let p = pushed(h, s);
    assert forall|i: int| 0 <= i < p.len() implies (#[trigger] p[i]).wf() by {
        if h.len() + 1 >= CAPACITY {
            assert(p[i] == h.push(s)[i + 1]);
        } else {
            assert(p[i] == h.push(s)[i]);
        }
    }
}

/// Pushing onto a full history drops exactly its oldest entry: the others
/// keep their order and the new snapshot comes last.
pub proof fn lemma_fifo_eviction(h: Seq<SnapshotModel>, s: SnapshotModel)
    requires
        h.len() == CAPACITY - 1,
    ensures
        pushed(h, s) == h.subrange(1, h.len() as int).push(s),
        pushed(h, s).len() == h.len(),
{
    assert(pushed(h, s) =~= h.subrange(1, h.len() as int).push(s));
}

/// A frame in which the device disconnects leaves exactly one entry, the
/// neutral snapshot, whatever the history held before and whatever the
/// other events were.
pub proof fn lemma_disconnect_resets(h: Seq<SnapshotModel>, events: Seq<RawEvent>)
    requires
        events.contains(RawEvent::Disconnected),
    ensures
        frame_step(h, events) == seq![zero_model()],
        frame_step(h, events).len() == 1,
        frame_step(h, events)[0] == zero_model(),
{
}

} // verus!
