use vstd::prelude::*;
use crate::input::ButtonId;

verus! {

/// A quantized stick direction: each component is -1, 0 or 1.
#[derive(Clone, Copy, Debug, PartialEq, Eq, Structural)]
pub struct StickAxis {
    pub x: i8,
    pub y: i8,
}

/// Whether a component is one of the three direction levels.
pub open spec fn is_level(v: int) -> bool {
    -1 <= v <= 1
}

impl StickAxis {
    pub open spec fn wf(self) -> bool {
        is_level(self.x as int) && is_level(self.y as int)
    }

    /// The neutral direction.
    pub fn zero() -> (r: StickAxis)
        ensures
            r.x == 0,
            r.y == 0,
    {
        StickAxis { x: 0, y: 0 }
    }

    /// Whether the stick points anywhere but the centre.
    pub fn is_active(&self) -> (r: bool)
        ensures
            r == (self.x != 0 || self.y != 0),
    {
        self.x != 0 || self.y != 0
    }
}

/// The currently held buttons, in the order they were pressed, each at most once.
#[derive(Debug)]
pub struct ButtonSet {
    items: Vec<ButtonId>,
}

/// `s` without any occurrence of `b`, order kept.
pub open spec fn without(s: Seq<ButtonId>, b: ButtonId) -> Seq<ButtonId>
    decreases s.len(),
{
    if s.len() == 0 {
        s
    } else if s.last() == b {
        without(s.drop_last(), b)
    } else {
        without(s.drop_last(), b).push(s.last())
    }
}

impl View for ButtonSet {
    type V = Seq<ButtonId>;

    closed spec fn view(&self) -> Seq<ButtonId> {
        self.items@
    }
}

impl ButtonSet {
    pub open spec fn wf(&self) -> bool {
        self@.no_duplicates()
    }

    /// An empty set.
    pub fn new() -> (r: ButtonSet)
        ensures
            r@ == Seq::<ButtonId>::empty(),
            r.wf(),
    {
        ButtonSet { items: Vec::new() }
    }

    /// Number of held buttons.
    pub fn len(&self) -> (r: usize)
        ensures
            r == self@.len(),
    {
        self.items.len()
    }

    /// The held buttons, in the order they were pressed.
    pub fn as_slice(&self) -> (r: &[ButtonId])
        ensures
            r@ == self@,
    {
        self.items.as_slice()
    }

    /// Whether `b` is held.
    pub fn contains(&self, b: ButtonId) -> (r: bool)
        ensures
            r == self@.contains(b),
    {
        let mut i: usize = 0;
        while i < self.items.len()
            invariant
                i <= self.items@.len(),
                forall|j: int| 0 <= j < i ==> self.items@[j] != b,
            decreases self.items@.len() - i,
        {
            if self.items[i] == b {
                return true;
            }
            i = i + 1;
        }
        false
    }

    /// Adds `b` at the end unless it is already held.
    pub fn insert(&mut self, b: ButtonId)
        requires
            old(self).wf(),
        ensures
            final(self).wf(),
            final(self)@ == if old(self)@.contains(b) {
                old(self)@
            } else {
                old(self)@.push(b)
            },
    {
        if !self.contains(b) {
            self.items.push(b);
            proof {
                assert forall|i: int, j: int|
                    0 <= i < j < self@.len() implies self@[i] != self@[j] by {
                    if j == self@.len() - 1 {
                        assert(old(self)@.contains(old(self)@[i]));
                    }
                }
            }
        }
    }

    /// Removes `b` if it is held, keeping the order of the others.
    pub fn remove(&mut self, b: ButtonId)
        requires
            old(self).wf(),
        ensures
            final(self).wf(),
            final(self)@ == without(old(self)@, b),
            !final(self)@.contains(b),
            old(self)@.contains(b) ==> final(self)@.len() == old(self)@.len() - 1,
            !old(self)@.contains(b) ==> final(self)@ == old(self)@,
    {
        let ghost s = self@;
        let mut kept: Vec<ButtonId> = Vec::new();
        let mut i: usize = 0;
        while i < self.items.len()
            invariant
                i <= s.len(),
                self@ == s,
                kept@ == without(s.take(i as int), b),
            decreases s.len() - i,
        {
            let x = self.items[i];
            proof {
                assert(s.take(i as int + 1).drop_last() == s.take(i as int));
            }
            if x != b {
                kept.push(x);
            }
            i = i + 1;
        }
        proof {
            assert(s.take(s.len() as int) == s);
        }
        self.items = kept;
        proof {
            lemma_without_props(s, b);
        }
    }
}

/// What removing `b` from a sequence gives.
pub(crate) proof fn lemma_without_props(s: Seq<ButtonId>, b: ButtonId)
    ensures
        forall|x: ButtonId| #[trigger]
            without(s, b).contains(x) <==> (s.contains(x) && x != b),
        s.no_duplicates() ==> without(s, b).no_duplicates(),
        s.no_duplicates() && s.contains(b) ==> without(s, b).len() == s.len() - 1,
        !s.contains(b) ==> without(s, b) == s,
    decreases s.len(),
{
    if s.len() > 0 {
        let t = s.drop_last();
        let e = s.last();
        let r = without(t, b);
        assert(t.push(e) == s);
        lemma_without_props(t, b);
        assert forall|x: ButtonId| s.contains(x) <==> (t.contains(x) || x == e) by {
            if s.contains(x) && x != e {
                let k = choose|k: int| 0 <= k < s.len() && s[k] == x;
                assert(t[k] == x);
            }
            if t.contains(x) {
                let k = choose|k: int| 0 <= k < t.len() && t[k] == x;
                assert(s[k] == x);
            }
            if x == e {
                assert(s[s.len() - 1] == x);
            }
        }
        if e == b {
            assert(without(s, b) == r);
        } else {
            assert(without(s, b) == r.push(e));
            assert forall|x: ButtonId| r.push(e).contains(x) <==> (r.contains(x) || x == e) by {
                if r.push(e).contains(x) && x != e {
                    let k = choose|k: int| 0 <= k < r.len() + 1 && r.push(e)[k] == x;
                    assert(r[k] == x);
                }
                if r.contains(x) {
                    let k = choose|k: int| 0 <= k < r.len() && r[k] == x;
                    assert(r.push(e)[k] == x);
                }
                if x == e {
                    assert(r.push(e)[r.len() as int] == x);
                }
            }
        }
        assert forall|x: ButtonId| #[trigger]
            without(s, b).contains(x) <==> (s.contains(x) && x != b) by {
            assert(r.contains(x) <==> (t.contains(x) && x != b));
            assert(s.contains(x) <==> (t.contains(x) || x == e));
        }
        if s.no_duplicates() {
            assert(t.no_duplicates());
            assert(!t.contains(e)) by {
                if t.contains(e) {
                    let k = choose|k: int| 0 <= k < t.len() && t[k] == e;
                    assert(s[k] == s[s.len() - 1]);
                }
            }
            if e != b {
                assert forall|i: int, j: int|
                    0 <= i < j < r.len() + 1 implies r.push(e)[i] != r.push(e)[j] by {
                    if j == r.len() {
                        assert(r.contains(r[i]));
                    }
                }
            }
        }
    } else {
        assert forall|x: ButtonId| !#[trigger] s.contains(x) by {
            if s.contains(x) {
                let k = choose|k: int| 0 <= k < s.len() && s[k] == x;
            }
        }
    }
}

impl Clone for ButtonSet {
    fn clone(&self) -> (r: ButtonSet)
        ensures
            r@ == self@,
    {
        let mut items: Vec<ButtonId> = Vec::new();
        let mut i: usize = 0;
        while i < self.items.len()
            invariant
                i <= self.items@.len(),
                items@ == self.items@.take(i as int),
            decreases self.items@.len() - i,
        {
            items.push(self.items[i]);
            proof {
                assert(self.items@.take(i as int + 1) == self.items@.take(i as int).push(
                    self.items@[i as int],
                ));
            }
            i = i + 1;
        }
        proof {
            assert(self.items@.take(self.items@.len() as int) == self.items@);
        }
        ButtonSet { items }
    }
}

/// The mathematical value of a snapshot.
pub ghost struct SnapshotModel {
    pub x: int,
    pub y: int,
    pub buttons: Seq<ButtonId>,
}

/// One frame's input state: a stick direction and the held buttons.
#[derive(Debug)]
pub struct Snapshot {
    pub axis: StickAxis,
    pub buttons: ButtonSet,
}

/// The neutral snapshot: stick centred, no button held.
pub open spec fn zero_model() -> SnapshotModel {
    SnapshotModel { x: 0, y: 0, buttons: Seq::empty() }
}

impl View for Snapshot {
    type V = SnapshotModel;

    open spec fn view(&self) -> SnapshotModel {
        SnapshotModel { x: self.axis.x as int, y: self.axis.y as int, buttons: self.buttons@ }
    }
}

impl SnapshotModel {
    pub open spec fn wf(self) -> bool {
        is_level(self.x) && is_level(self.y) && self.buttons.no_duplicates()
    }
}

impl Snapshot {
    pub open spec fn wf(&self) -> bool {
        self@.wf()
    }

    /// The neutral snapshot.
    pub fn zero() -> (r: Snapshot)
        ensures
            r@ == zero_model(),
            r.wf(),
    {
        Snapshot { axis: StickAxis::zero(), buttons: ButtonSet::new() }
    }
}

impl Clone for Snapshot {
    fn clone(&self) -> (r: Snapshot)
        ensures
            r@ == self@,
    {
        Snapshot { axis: self.axis, buttons: self.buttons.clone() }
    }
}

} // verus!
