//! The game's internal events and the schedule that maps each pending event to its time.

use vstd::prelude::*;
use crate::modes::GameTime;

verus! {

/// An event that is scheduled by the game engine to execute some action.
#[derive(Clone, Copy, PartialEq, Eq, Structural, Debug, Hash, PartialOrd, Ord)]
pub enum InternalEvent {
    /// Event of full lines being cleared from the board.
    LineClear,
    /// Event of a new active piece coming into play.
    Spawn,
    /// Event of the current active piece being fixed on the board.
    Lock,
    /// Event of the active piece being dropped down and a fast lock timer being initiated.
    HardDrop,
    /// Event of the active piece being dropped down (without any further action or locking).
    SonicDrop,
    /// Event of the active piece immediately dropping down by one.
    SoftDrop,
    /// Event of the active piece moving down due to ordinary game gravity.
    Fall,
    /// Event of the active piece moving sideways, waiting one period of 'DAS' until 'ARR' begins.
    MoveSlow,
    /// Event of the active piece moving sideways at 'ARR' speed.
    MoveFast,
    /// Event of the active piece rotating some number of right turns.
    Rotate(i32),
    /// Event of attempted piece lock down.
    LockTimer,
}

/// The position of an event kind in the declaration order of [`InternalEvent`].
pub open spec fn event_rank(e: InternalEvent) -> int {
    match e {
        InternalEvent::LineClear => 0,
        InternalEvent::Spawn => 1,
        InternalEvent::Lock => 2,
        InternalEvent::HardDrop => 3,
        InternalEvent::SonicDrop => 4,
        InternalEvent::SoftDrop => 5,
        InternalEvent::Fall => 6,
        InternalEvent::MoveSlow => 7,
        InternalEvent::MoveFast => 8,
        InternalEvent::Rotate(_) => 9,
        InternalEvent::LockTimer => 10,
    }
}

/// Whether `a` strictly precedes `b` in the order of events (declaration order, rotations
/// ordered by their number of turns).
pub open spec fn event_lt(a: InternalEvent, b: InternalEvent) -> bool {
    event_rank(a) < event_rank(b) || (a matches InternalEvent::Rotate(x) && b matches InternalEvent::Rotate(
        y,
    ) && x < y)
}

/// Whether the scheduled event `(a, ta)` comes strictly before `(b, tb)`: earlier time first,
/// then event order.
pub open spec fn scheduled_before(a: InternalEvent, ta: GameTime, b: InternalEvent, tb: GameTime) -> bool {
    ta < tb || (ta == tb && event_lt(a, b))
}

fn event_rank_exec(e: InternalEvent) -> (r: u8)
    ensures
        r == event_rank(e),
{
    match e {
        InternalEvent::LineClear => 0,
        InternalEvent::Spawn => 1,
        InternalEvent::Lock => 2,
        InternalEvent::HardDrop => 3,
        InternalEvent::SonicDrop => 4,
        InternalEvent::SoftDrop => 5,
        InternalEvent::Fall => 6,
        InternalEvent::MoveSlow => 7,
        InternalEvent::MoveFast => 8,
        InternalEvent::Rotate(_) => 9,
        InternalEvent::LockTimer => 10,
    }
}

/// Whether the scheduled event `(a, ta)` comes strictly before `(b, tb)`.
pub fn is_scheduled_before(a: InternalEvent, ta: GameTime, b: InternalEvent, tb: GameTime) -> (r: bool)
    ensures
        r == scheduled_before(a, ta, b, tb),
{
    if ta != tb {
        return ta < tb;
    }
    let ra = event_rank_exec(a);
    let rb = event_rank_exec(b);
    if ra != rb {
        return ra < rb;
    }
    match (a, b) {
        (InternalEvent::Rotate(x), InternalEvent::Rotate(y)) => x < y,
        _ => false,
    }
}

/// The pending events of a game, each with the time it is scheduled for; no event is
/// scheduled twice.
#[derive(Clone, PartialEq, Eq, Debug)]
pub struct EventMap {
    entries: Vec<(InternalEvent, GameTime)>,
}

/// Whether event `e` has an entry in the sequence.
pub open spec fn has_key(s: Seq<(InternalEvent, GameTime)>, e: InternalEvent) -> bool {
    exists|i: int| 0 <= i < s.len() && (#[trigger] s[i]).0 == e
}

/// Whether no event occurs twice in the sequence.
pub open spec fn distinct_keys(s: Seq<(InternalEvent, GameTime)>) -> bool {
    forall|i: int, j: int| 0 <= i < s.len() && 0 <= j < s.len() && i != j ==> (#[trigger] s[i]).0 != (#[trigger] s[j]).0
}

/// The map from each event of the sequence to its time.
pub open spec fn entries_map(s: Seq<(InternalEvent, GameTime)>) -> Map<InternalEvent, GameTime> {
    Map::new(
        |e: InternalEvent| has_key(s, e),
        |e: InternalEvent| s[choose|i: int| 0 <= i < s.len() && (#[trigger] s[i]).0 == e].1,
    )
}

/// In a sequence without duplicate events, an entry gives the map's value for its event.
pub proof fn lemma_entry_in_map(s: Seq<(InternalEvent, GameTime)>, i: int)
    requires
        distinct_keys(s),
        0 <= i < s.len(),
    ensures
        entries_map(s).contains_key(s[i].0),
        entries_map(s)[s[i].0] == s[i].1,
{
    let e = s[i].0;
    assert(has_key(s, e));
    let j = choose|j: int| 0 <= j < s.len() && (#[trigger] s[j]).0 == e;
    assert(j == i);
}

impl View for EventMap {
    type V = Map<InternalEvent, GameTime>;

    closed spec fn view(&self) -> Map<InternalEvent, GameTime> {
        entries_map(self.entries@)
    }
}

impl EventMap {
    /// No event is scheduled twice.
    pub closed spec fn wf(&self) -> bool {
        distinct_keys(self.entries@)
    }

    /// No event scheduled.
    pub fn new() -> (r: Self)
        ensures
            r.wf(),
            r@ == Map::<InternalEvent, GameTime>::empty(),
    {
        let r = EventMap { entries: Vec::new() };
        assert(r@ =~= Map::<InternalEvent, GameTime>::empty());
        r
    }

    /// Position of the event's entry, if any.
    fn find(&self, e: InternalEvent) -> (r: Option<usize>)
        requires
            self.wf(),
        ensures
            r is None ==> !self@.contains_key(e),
            r matches Some(i) ==> i < self.entries@.len() && self.entries@[i as int].0 == e,
    {
        let mut i: usize = 0;
        while i < self.entries.len()
            invariant
                i <= self.entries@.len(),
                forall|j: int| 0 <= j < i ==> (#[trigger] self.entries@[j]).0 != e,
            decreases self.entries@.len() - i,
        {
            if self.entries[i].0 == e {
                return Some(i);
            }
            i += 1;
        }
        None
    }

    /// The time the event is scheduled for, if it is scheduled.
    pub fn get(&self, e: InternalEvent) -> (r: Option<GameTime>)
        requires
            self.wf(),
        ensures
            r == if self@.contains_key(e) { Some(self@[e]) } else { None::<GameTime> },
    {
        match self.find(e) {
            Some(i) => {
                proof {
                    lemma_entry_in_map(self.entries@, i as int);
                }
                Some(self.entries[i].1)
            },
            None => None,
        }
    }

    /// Whether the event is scheduled.
    pub fn contains_key(&self, e: InternalEvent) -> (r: bool)
        requires
            self.wf(),
        ensures
            r == self@.contains_key(e),
    {
        match self.find(e) {
            Some(i) => {
                proof {
                    lemma_entry_in_map(self.entries@, i as int);
                }
                true
            },
            None => false,
        }
    }

    /// Whether no event is scheduled.
    pub fn is_empty(&self) -> (r: bool)
        requires
            self.wf(),
        ensures
            r == self@.dom().is_empty(),
    {
        if self.entries.len() == 0 {
            assert(self@.dom() =~= Set::<InternalEvent>::empty());
            true
        } else {
            proof {
                lemma_entry_in_map(self.entries@, 0);
            }
            false
        }
    }

    /// Schedules the event for the given time, replacing any earlier schedule of it.
    pub fn insert(&mut self, e: InternalEvent, t: GameTime)
        requires
            old(self).wf(),
        ensures
            final(self).wf(),
            final(self)@ == old(self)@.insert(e, t),
    {
        let ghost old_s = self.entries@;
        match self.find(e) {
            Some(i) => {
                self.entries.set(i, (e, t));
                let ghost s = self.entries@;
                assert(s == old_s.update(i as int, (e, t)));
                assert(distinct_keys(s));
                assert forall|k: InternalEvent| true implies (has_key(s, k) == (has_key(old_s, k) || k == e)) by {
                    if has_key(old_s, k) {
                        let j = choose|j: int| 0 <= j < old_s.len() && (#[trigger] old_s[j]).0 == k;
                        assert(s[j].0 == k);
                    }
                    if has_key(s, k) {
                        let j = choose|j: int| 0 <= j < s.len() && (#[trigger] s[j]).0 == k;
                        if j != i {
                            assert(old_s[j].0 == k);
                        }
                    }
                    if k == e {
                        assert(s[i as int].0 == k);
                    }
                }
                assert(self@ =~= old(self)@.insert(e, t)) by {
                    assert forall|k: InternalEvent| #[trigger] self@.contains_key(k) implies self@[k] == old(self)@.insert(e, t)[k] by {
                        let j = choose|j: int| 0 <= j < s.len() && (#[trigger] s[j]).0 == k;
                        lemma_entry_in_map(s, j);
                        if j != i {
                            lemma_entry_in_map(old_s, j);
                        }
                    }
                }
            },
            None => {
                self.entries.push((e, t));
                let ghost s = self.entries@;
                assert(s == old_s.push((e, t)));
                assert(distinct_keys(s)) by {
                    assert forall|a: int, b: int| 0 <= a < s.len() && 0 <= b < s.len() && a != b implies (#[trigger] s[a]).0 != (#[trigger] s[b]).0 by {
                        if a == old_s.len() {
                            assert(old_s[b] == s[b]);
                        } else if b == old_s.len() {
                            assert(old_s[a] == s[a]);
                        }
                    }
                }
                assert forall|k: InternalEvent| true implies (has_key(s, k) == (has_key(old_s, k) || k == e)) by {
                    if has_key(old_s, k) {
                        let j = choose|j: int| 0 <= j < old_s.len() && (#[trigger] old_s[j]).0 == k;
                        assert(s[j].0 == k);
                    }
                    if has_key(s, k) {
                        let j = choose|j: int| 0 <= j < s.len() && (#[trigger] s[j]).0 == k;
                        if j != old_s.len() {
                            assert(old_s[j].0 == k);
                        }
                    }
                    if k == e {
                        assert(s[old_s.len() as int].0 == k);
                    }
                }
                assert(self@ =~= old(self)@.insert(e, t)) by {
                    assert forall|k: InternalEvent| #[trigger] self@.contains_key(k) implies self@[k] == old(self)@.insert(e, t)[k] by {
                        let j = choose|j: int| 0 <= j < s.len() && (#[trigger] s[j]).0 == k;
                        lemma_entry_in_map(s, j);
                        if j != old_s.len() {
                            lemma_entry_in_map(old_s, j);
                        }
                    }
                }
            },
        }
    }

    /// Unschedules the event, if it was scheduled.
    pub fn remove(&mut self, e: InternalEvent)
        requires
            old(self).wf(),
        ensures
            final(self).wf(),
            final(self)@ == old(self)@.remove(e),
    {
        let ghost old_s = self.entries@;
        match self.find(e) {
            Some(i) => {
                self.entries.remove(i);
                let ghost s = self.entries@;
                assert(s == old_s.remove(i as int));
                assert(distinct_keys(s)) by {
                    assert forall|a: int, b: int| 0 <= a < s.len() && 0 <= b < s.len() && a != b implies (#[trigger] s[a]).0 != (#[trigger] s[b]).0 by {
                        let oa = if a < i { a } else { a + 1 };
                        let ob = if b < i { b } else { b + 1 };
                        assert(s[a] == old_s[oa]);
                        assert(s[b] == old_s[ob]);
                    }
                }
                assert forall|k: InternalEvent| true implies (has_key(s, k) == (has_key(old_s, k) && k != e)) by {
                    if has_key(old_s, k) && k != e {
                        let j = choose|j: int| 0 <= j < old_s.len() && (#[trigger] old_s[j]).0 == k;
                        assert(j != i);
                        let nj = if j < i { j } else { j - 1 };
                        assert(s[nj] == old_s[j]);
                    }
                    if has_key(s, k) {
                        let j = choose|j: int| 0 <= j < s.len() && (#[trigger] s[j]).0 == k;
                        let oj = if j < i { j } else { j + 1 };
                        assert(s[j] == old_s[oj]);
                        assert(oj != i);
                    }
                }
                assert(self@ =~= old(self)@.remove(e)) by {
                    assert forall|k: InternalEvent| #[trigger] self@.contains_key(k) implies self@[k] == old(self)@.remove(e)[k] by {
                        let j = choose|j: int| 0 <= j < s.len() && (#[trigger] s[j]).0 == k;
                        lemma_entry_in_map(s, j);
                        let oj = if j < i { j } else { j + 1 };
                        assert(s[j] == old_s[oj]);
                        lemma_entry_in_map(old_s, oj);
                    }
                }
            },
            None => {
                assert(self@ =~= old(self)@.remove(e));
            },
        }
    }

    /// Unschedules all events.
    pub fn clear(&mut self)
        ensures
            final(self).wf(),
            final(self)@ == Map::<InternalEvent, GameTime>::empty(),
    {
        self.entries = Vec::new();
        assert(self@ =~= Map::<InternalEvent, GameTime>::empty());
    }

    /// The event scheduled first (earliest time, then event order), if any.
    pub fn first(&self) -> (r: Option<(InternalEvent, GameTime)>)
        requires
            self.wf(),
        ensures
            r is None <==> self@.dom().is_empty(),
            r matches Some((e, t)) ==> {
                &&& self@.contains_key(e)
                &&& self@[e] == t
                &&& forall|k: InternalEvent| #[trigger] self@.contains_key(k) && k != e
                    ==> scheduled_before(e, t, k, self@[k])
            },
    {
        if self.entries.len() == 0 {
            assert(self@.dom() =~= Set::<InternalEvent>::empty());
            return None;
        }
        let ghost s = self.entries@;
        let mut best: usize = 0;
        let mut i: usize = 1;
        while i < self.entries.len()
            invariant
                s == self.entries@,
                distinct_keys(s),
                1 <= i <= s.len(),
                best < i,
                forall|j: int| 0 <= j < i && j != best ==> scheduled_before(
                    s[best as int].0,
                    s[best as int].1,
                    (#[trigger] s[j]).0,
                    s[j].1,
                ),
            decreases s.len() - i,
        {
            let (e, t) = self.entries[i];
            let (be, bt) = self.entries[best];
            if is_scheduled_before(e, t, be, bt) {
                proof {
                    assert forall|j: int| 0 <= j < i + 1 && j != i implies scheduled_before(
                        s[i as int].0,
                        s[i as int].1,
                        (#[trigger] s[j]).0,
                        s[j].1,
                    ) by {
                        if j != best {
                            assert(scheduled_before(be, bt, s[j].0, s[j].1));
                            assert(s[j].0 != be);
                            if s[j].0 == e {
                                assert(false);
                            }
                            lemma_before_transitive(e, t, be, bt, s[j].0, s[j].1);
                        }
                    }
                }
                best = i;
            } else {
                proof {
                    assert(s[i as int].0 != be);
                    lemma_before_total(e, t, be, bt);
                }
            }
            i += 1;
        }
        let (e, t) = self.entries[best];
        proof {
            lemma_entry_in_map(s, best as int);
            assert forall|k: InternalEvent| #[trigger] self@.contains_key(k) && k != e implies scheduled_before(e, t, k, self@[k]) by {
                let j = choose|j: int| 0 <= j < s.len() && (#[trigger] s[j]).0 == k;
                lemma_entry_in_map(s, j);
            }
        }
        Some((e, t))
    }
}

/// The order of scheduled events is transitive.
pub proof fn lemma_before_transitive(
    a: InternalEvent,
    ta: GameTime,
    b: InternalEvent,
    tb: GameTime,
    c: InternalEvent,
    tc: GameTime,
)
    requires
        scheduled_before(a, ta, b, tb),
        scheduled_before(b, tb, c, tc),
    ensures
        scheduled_before(a, ta, c, tc),
{
}

/// Two distinct scheduled events are ordered one way or the other.
pub proof fn lemma_before_total(a: InternalEvent, ta: GameTime, b: InternalEvent, tb: GameTime)
    requires
        a != b,
    ensures
        scheduled_before(a, ta, b, tb) || scheduled_before(b, tb, a, ta),
{
}

} // verus!
