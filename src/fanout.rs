//! A fan-out channel: one stream of produced items that any number of
//! consumers read, each at its own pace through its own cursor.
//!
//! The channel keeps the most recent `capacity` items. A consumer that falls
//! further behind than that loses the oldest items it has not read: its next
//! read skips to the oldest item still kept (drop-oldest).
use vstd::prelude::*;
use std::collections::VecDeque;

verus! {

pub struct FanOut<T> {
    retained: VecDeque<T>,
    capacity: usize,
    produced: usize,
    cursors: Vec<usize>,
    history: Ghost<Seq<T>>,
    starts: Ghost<Seq<nat>>,
    received: Ghost<Seq<Seq<nat>>>,
}

pub struct FanOutView<T> {
    /// Every item produced, in order.
    pub history: Seq<T>,
    pub capacity: nat,
    /// For each consumer, the position in `history` of the next item it has
    /// not passed.
    pub cursors: Seq<nat>,
    /// For each consumer, the length of `history` when it registered.
    pub starts: Seq<nat>,
    /// For each consumer, the positions in `history` of the items it received,
    /// in the order received.
    pub received: Seq<Seq<nat>>,
}

/// The position of the oldest item the channel still keeps.
pub open spec fn oldest_kept<T>(v: FanOutView<T>) -> nat {
    if v.history.len() > v.capacity {
        (v.history.len() - v.capacity) as nat
    } else {
        0
    }
}

/// The position of the item that consumer `c` receives next, when there is
/// one: its cursor, or the oldest item kept if that is later.
pub open spec fn next_index<T>(v: FanOutView<T>, c: int) -> nat {
    if v.cursors[c] < oldest_kept(v) {
        oldest_kept(v)
    } else {
        v.cursors[c]
    }
}

/// Consumer `c` has received every item from its registration up to its
/// cursor: nothing was dropped for it.
pub open spec fn lossless<T>(v: FanOutView<T>, c: int) -> bool {
    v.received[c].len() == v.cursors[c] - v.starts[c]
}

/// What holds of every reachable channel.
pub open spec fn fanout_wf<T>(v: FanOutView<T>) -> bool {
    &&& v.capacity > 0
    &&& v.cursors.len() == v.starts.len()
    &&& v.received.len() == v.starts.len()
    &&& forall|c: int|
        0 <= c < v.cursors.len() ==> #[trigger] v.starts[c] <= v.cursors[c] <= v.history.len()
    &&& forall|c: int|
        0 <= c < v.cursors.len() ==> #[trigger] v.received[c].len() <= v.cursors[c] - v.starts[c]
    &&& forall|c: int, i: int|
        0 <= c < v.cursors.len() && 0 <= i < v.received[c].len() ==> v.starts[c] + i
            <= #[trigger] v.received[c][i] && v.received[c][i] + (v.received[c].len() - i)
            <= v.cursors[c]
    &&& forall|c: int, i: int, j: int|
        0 <= c < v.cursors.len() && 0 <= i < j < v.received[c].len() ==> #[trigger] v.received[c][i]
            < #[trigger] v.received[c][j]
}

impl<T> View for FanOut<T> {
    type V = FanOutView<T>;

    closed spec fn view(&self) -> FanOutView<T> {
        FanOutView {
            history: self.history@,
            capacity: self.capacity as nat,
            cursors: self.cursors@.map_values(|k: usize| k as nat),
            starts: self.starts@,
            received: self.received@,
        }
    }
}

impl<T> FanOut<T> {
    pub open spec fn wf(&self) -> bool {
        &&& fanout_wf(self@)
        &&& self.storage_wf()
    }

    /// The kept items are the last ones of the history.
    pub closed spec fn storage_wf(&self) -> bool {
        &&& self.produced == self.history@.len()
        &&& self.retained@.len() <= self.capacity
        &&& self.retained@.len() == self.produced - oldest_kept(self@)
        &&& self.retained@ == self.history@.subrange(
            oldest_kept(self@) as int,
            self.produced as int,
        )
    }

    /// An empty channel that keeps the last `capacity` items.
    pub fn new(capacity: usize) -> (r: FanOut<T>)
        requires
            capacity > 0,
        ensures
            r.wf(),
            r@.history.len() == 0,
            r@.capacity == capacity,
            r@.cursors.len() == 0,
    {
        let r = FanOut {
            retained: VecDeque::new(),
            capacity,
            produced: 0,
            cursors: Vec::new(),
            history: Ghost(Seq::empty()),
            starts: Ghost(Seq::empty()),
            received: Ghost(Seq::empty()),
        };
        assert(r@.cursors =~= Seq::empty());
        assert(r.retained@ =~= r.history@.subrange(0, 0));
        r
    }

    pub fn consumer_count(&self) -> (n: usize)
        ensures
            n == self@.cursors.len(),
    {
        self.cursors.len()
    }

    /// How many items were produced so far.
    pub fn produced_count(&self) -> (n: usize)
        requires
            self.wf(),
        ensures
            n == self@.history.len(),
    {
        self.produced
    }

    /// Registers a consumer, which receives the items produced from now on.
    pub fn new_consumer(&mut self) -> (id: usize)
        requires
            old(self).wf(),
        ensures
            final(self).wf(),
            id == old(self)@.cursors.len(),
            final(self)@.history == old(self)@.history,
            final(self)@.capacity == old(self)@.capacity,
            final(self)@.cursors == old(self)@.cursors.push(old(self)@.history.len()),
            final(self)@.starts == old(self)@.starts.push(old(self)@.history.len()),
            final(self)@.received == old(self)@.received.push(Seq::empty()),
    {
        let id = self.cursors.len();
        let ghost before = self@;
        self.cursors.push(self.produced);
        self.starts = Ghost(self.starts@.push(self.produced as nat));
        self.received = Ghost(self.received@.push(Seq::empty()));
        assert(self@.cursors =~= before.cursors.push(before.history.len()));
        assert(fanout_wf(self@)) by {
            assert forall|c: int, i: int|
                0 <= c < self@.cursors.len() && 0 <= i < self@.received[c].len() implies self@.starts[c]
                    + i <= #[trigger] self@.received[c][i] && self@.received[c][i] + (
                self@.received[c].len() - i) <= self@.cursors[c] by {
                assert(c < before.cursors.len());
            }
        }
        id
    }

    /// Publishes an item to every consumer. When the channel already keeps
    /// `capacity` items, the oldest is dropped.
    pub fn produce(&mut self, item: T)
        requires
            old(self).wf(),
            old(self)@.history.len() < usize::MAX,
        ensures
            final(self).wf(),
            final(self)@.history == old(self)@.history.push(item),
            final(self)@.capacity == old(self)@.capacity,
            final(self)@.cursors == old(self)@.cursors,
            final(self)@.starts == old(self)@.starts,
            final(self)@.received == old(self)@.received,
    {
        let ghost before = self@;
        self.retained.push_back(item);
        self.produced = self.produced + 1;
        self.history = Ghost(self.history@.push(item));
        if self.retained.len() > self.capacity {
            let _ = self.retained.pop_front();
        }
        assert(self.retained@ =~= self.history@.subrange(
            oldest_kept(self@) as int,
            self.produced as int,
        ));
    }

    /// The next item for consumer `id` that it has not received, if any,
    /// without waiting: a clone of the item at `next_index`.
    pub fn try_recv(&mut self, id: usize) -> (r: Option<T>)
        where
            T: Clone,
        requires
            old(self).wf(),
            id < old(self)@.cursors.len(),
        ensures
            final(self).wf(),
            final(self)@.history == old(self)@.history,
            final(self)@.capacity == old(self)@.capacity,
            final(self)@.starts == old(self)@.starts,
            r is None <==> old(self)@.cursors[id as int] == old(self)@.history.len(),
            r is None ==> final(self)@ == old(self)@,
            r matches Some(x) ==> {
                let k = next_index(old(self)@, id as int);
                &&& k < old(self)@.history.len()
                &&& cloned(old(self)@.history[k as int], x)
                &&& final(self)@.cursors == old(self)@.cursors.update(id as int, k + 1)
                &&& final(self)@.received == old(self)@.received.update(
                    id as int,
                    old(self)@.received[id as int].push(k),
                )
            },
    {
        let cursor = self.cursors[id];
        assert(cursor as nat == self@.cursors[id as int]);
        assert(self@.starts[id as int] <= self@.cursors[id as int] <= self@.history.len());
        if cursor == self.produced {
            return None;
        }
        let ghost before = self@;
        let oldest = self.produced - self.retained.len();
        let k = if cursor < oldest {
            oldest
        } else {
            cursor
        };
        assert(oldest == oldest_kept(self@));
        assert(oldest <= k < self.produced);
        assert(k - oldest < self.retained@.len());
        assert(self.retained@[k - oldest] == self.history@[k as int]);
        let item = self.retained[k - oldest].clone();
        self.cursors.set(id, k + 1);
        let ghost got = self.received@[id as int].push(k as nat);
        self.received = Ghost(self.received@.update(id as int, got));
        assert(self@.cursors =~= before.cursors.update(id as int, (k + 1) as nat));
        assert(fanout_wf(self@)) by {
            assert forall|c: int, i: int|
                0 <= c < self@.cursors.len() && 0 <= i < self@.received[c].len() implies self@.starts[c]
                    + i <= #[trigger] self@.received[c][i] && self@.received[c][i] + (
                self@.received[c].len() - i) <= self@.cursors[c] by {
                if c == id && i < before.received[c].len() {
                    assert(self@.received[c][i] == before.received[c][i]);
                }
            }
            assert forall|c: int, i: int, j: int|
                0 <= c < self@.cursors.len() && 0 <= i < j < self@.received[c].len() implies #[trigger] self@.received[c][i]
                    < #[trigger] self@.received[c][j] by {
                if c == id && j == before.received[c].len() {
                    assert(before.received[c][i] + (before.received[c].len() - i) <= before.cursors[c]);
                }
            }
        }
        Some(item)
    }
}

/// A consumer receives only items produced after it registered: every
/// position it received is at least the length the stream had then.
pub proof fn lemma_consumer_sees_only_later<T>(v: FanOutView<T>, c: int)
    requires
        fanout_wf(v),
        0 <= c < v.cursors.len(),
    ensures
        forall|i: int| 0 <= i < v.received[c].len() ==> v.starts[c] <= #[trigger] v.received[c][i],
{
}

/// Two consumers that registered at the same point, have passed the same
/// items and lost none, received the same items in the same order.
pub proof fn lemma_consumers_agree<T>(v: FanOutView<T>, c1: int, c2: int)
    requires
        fanout_wf(v),
        0 <= c1 < v.cursors.len(),
        0 <= c2 < v.cursors.len(),
        v.starts[c1] == v.starts[c2],
        v.cursors[c1] == v.cursors[c2],
        lossless(v, c1),
        lossless(v, c2),
    ensures
        v.received[c1] == v.received[c2],
        forall|i: int|
            0 <= i < v.received[c1].len() ==> #[trigger] v.received[c1][i] == v.starts[c1] + i,
{
    assert forall|i: int| 0 <= i < v.received[c1].len() implies #[trigger] v.received[c1][i]
        == v.starts[c1] + i by {
        assert(v.starts[c1] + i <= v.received[c1][i]);
    }
    assert forall|i: int| 0 <= i < v.received[c2].len() implies #[trigger] v.received[c2][i]
        == v.starts[c2] + i by {
        assert(v.starts[c2] + i <= v.received[c2][i]);
    }
    assert(v.received[c1] =~= v.received[c2]);
}

} // verus!
