//! Fan-out of console output lines to any number of subscribers.
//!
//! The producer pushes into a bounded window and is never blocked or
//! slowed by consumers. Each subscriber holds an independent cursor into
//! the stream of all lines ever produced; a consumer that falls behind
//! the retained window is told how many lines it lost and resumes at the
//! oldest retained line (the drop-oldest policy), and a subscriber created
//! after `n` lines were produced is never shown any of those `n` lines.

use vstd::prelude::*;

verus! {

/// An independent consumer cursor handed out by [`LineBroadcaster::subscribe`].
#[derive(Clone, Copy, Debug)]
pub struct Subscription {
    pub id: usize,
}

/// What one receive step yields for a subscriber.
#[derive(Clone, Debug)]
pub enum PollMsg {
    /// The next line of the stream, in production order.
    Line(String),
    /// The subscriber fell out of the retained window; this many lines
    /// were dropped for it, and its cursor now rests on the oldest
    /// retained line.
    Lagged(u64),
    /// The subscriber has seen everything produced so far.
    Empty,
}

pub struct LineBroadcaster {
    /// The retained window of the stream, oldest first.
    lines: Vec<String>,
    /// How many lines have been dropped from the front of the stream;
    /// `lines[0]` is line number `base` of the whole stream.
    base: u64,
    /// Bound on the retained window.
    cap: usize,
    /// Cursor of each subscriber: the stream index it will read next.
    subs: Vec<u64>,
    /// Every line ever produced, in order.
    log: Ghost<Seq<Seq<char>>>,
}

impl LineBroadcaster {
    /// The whole stream of lines produced so far.
    pub closed spec fn history(&self) -> Seq<Seq<char>> {
        self.log@
    }

    /// How many lines have ever been produced.
    pub open spec fn total(&self) -> int {
        self.history().len() as int
    }

    /// Stream index of the oldest line still retained.
    pub closed spec fn dropped_before(&self) -> int {
        self.base as int
    }

    pub closed spec fn capacity(&self) -> int {
        self.cap as int
    }

    pub closed spec fn num_subs(&self) -> int {
        self.subs@.len() as int
    }

    /// Stream index the subscriber in slot `id` will read next.
    pub closed spec fn cursor(&self, id: int) -> int {
        self.subs@[id] as int
    }

    pub closed spec fn wf(&self) -> bool {
        &&& self.cap >= 1
        &&& self.lines@.len() <= self.cap
        &&& self.base + self.lines@.len() == self.log@.len()
        &&& self.log@.len() <= u64::MAX
        &&& (forall|i: int|
            0 <= i < self.lines@.len() ==> #[trigger] self.lines@[i]@ == self.log@[
                self.base + i
            ])
        &&& (forall|s: int| 0 <= s < self.subs@.len() ==> #[trigger] self.subs@[s] <= self.log@.len())
    }

    /// An empty broadcaster that will retain at most `cap` lines.
    pub fn new(cap: usize) -> (b: LineBroadcaster)
        requires
            cap >= 1,
        ensures
            b.wf(),
            b.total() == 0,
            b.num_subs() == 0,
            b.capacity() == cap,
    {
        LineBroadcaster {
            lines: Vec::new(),
            base: 0,
            cap,
            subs: Vec::new(),
            log: Ghost(Seq::empty()),
        }
    }

    /// Registers a new subscriber. Its cursor starts at the present end of
    /// the stream, so it will only ever be shown lines produced from this
    /// moment on.
    pub fn subscribe(&mut self) -> (s: Subscription)
        requires
            old(self).wf(),
        ensures
            final(self).wf(),
            final(self).history() == old(self).history(),
            final(self).dropped_before() == old(self).dropped_before(),
            final(self).capacity() == old(self).capacity(),
            final(self).num_subs() == old(self).num_subs() + 1,
            s.id == old(self).num_subs(),
            final(self).cursor(s.id as int) == old(self).total(),
            forall|i: int|
                0 <= i < old(self).num_subs() ==> final(self).cursor(i) == old(self).cursor(i),
    {
        let id = self.subs.len();
        let ghost n = self.log@.len();
        let cursor: u64 = self.base + (self.lines.len() as u64);
        self.subs.push(cursor);
        Subscription { id }
    }

    /// Accepts one produced line. Never blocked by consumers: when the
    /// window is full the oldest retained line is dropped instead.
    pub fn push_line(&mut self, line: String)
        requires
            old(self).wf(),
            old(self).total() < u64::MAX,
        ensures
            final(self).wf(),
            final(self).history() == old(self).history().push(line@),
            final(self).capacity() == old(self).capacity(),
            final(self).num_subs() == old(self).num_subs(),
            forall|i: int|
                0 <= i < old(self).num_subs() ==> final(self).cursor(i) == old(self).cursor(i),
            final(self).dropped_before() == if old(self).total() - old(self).dropped_before()
                == old(self).capacity() {
                old(self).dropped_before() + 1
            } else {
                old(self).dropped_before()
            },
    {
        if self.lines.len() == self.cap {
            self.lines.remove(0);
            self.base = self.base + 1;
        }
        self.lines.push(line);
        proof {
            self.log@ = self.log@.push(line@);
        }
    }

    /// Stream index of the line a subscriber at cursor `cur` would be
    /// handed next, if one is retained and unread.
    pub open spec fn spec_delivered(&self, cur: int) -> Option<int> {
        if self.dropped_before() <= cur < self.total() {
            Some(cur)
        } else {
            None
        }
    }

    /// Where a subscriber's cursor rests after one receive step from `cur`.
    pub open spec fn spec_next_cursor(&self, cur: int) -> int {
        if cur < self.dropped_before() {
            self.dropped_before()
        } else if cur < self.total() {
            cur + 1
        } else {
            cur
        }
    }

    /// One receive step for subscriber `s`: the next retained line, or how
    /// far the subscriber lagged, or nothing when it is caught up.
    pub fn poll(&mut self, s: &Subscription) -> (r: PollMsg)
        requires
            old(self).wf(),
            s.id < old(self).num_subs(),
        ensures
            final(self).wf(),
            final(self).history() == old(self).history(),
            final(self).dropped_before() == old(self).dropped_before(),
            final(self).capacity() == old(self).capacity(),
            final(self).num_subs() == old(self).num_subs(),
            forall|i: int|
                0 <= i < old(self).num_subs() && i != s.id ==> final(self).cursor(i) == old(
                    self,
                ).cursor(i),
            final(self).cursor(s.id as int) == old(self).spec_next_cursor(
                old(self).cursor(s.id as int),
            ),
            match r {
                PollMsg::Line(l) => {
                    &&& old(self).spec_delivered(old(self).cursor(s.id as int)) == Some(
                        old(self).cursor(s.id as int),
                    )
                    &&& l@ == old(self).history()[old(self).cursor(s.id as int)]
                },
                PollMsg::Lagged(n) => {
                    &&& old(self).cursor(s.id as int) < old(self).dropped_before()
                    &&& n == old(self).dropped_before() - old(self).cursor(s.id as int)
                },
                PollMsg::Empty => old(self).cursor(s.id as int) == old(self).total(),
            },
    {
        let cur: u64 = self.subs[s.id];
        if cur < self.base {
            let skipped = self.base - cur;
            self.subs.set(s.id, self.base);
            PollMsg::Lagged(skipped)
        } else if cur < self.base + (self.lines.len() as u64) {
            let off: usize = (cur - self.base) as usize;
            let line = self.lines[off].clone();
            self.subs.set(s.id, cur + 1);
            PollMsg::Line(line)
        } else {
            PollMsg::Empty
        }
    }

    /// How many lines have ever been produced, as the shell reads it to
    /// respect the window arithmetic's bound.
    pub fn produced(&self) -> (n: u64)
        requires
            self.wf(),
        ensures
            n == self.total(),
    {
        self.base + (self.lines.len() as u64)
    }

    /// How many subscribers there are; the producer's obligations do not
    /// depend on it.
    pub fn subscriber_count(&self) -> (n: usize)
        ensures
            n == self.num_subs(),
    {
        self.subs.len()
    }
}

/// No replay: a cursor that stands at or beyond `n` — as every cursor of a
/// subscriber created when `n` lines had been produced does — is only ever
/// handed lines with stream index at least `n`, and never moves backward.
pub proof fn lemma_no_replay(b: &LineBroadcaster, cur: int, n: int)
    requires
        b.wf(),
        n <= cur,
    ensures
        b.spec_delivered(cur) is Some ==> b.spec_delivered(cur)->0 >= n,
        b.spec_next_cursor(cur) >= cur,
{
}

/// The retained window never outgrows the capacity: at any moment at most
/// `capacity` lines separate the oldest retained line from the newest, so
/// a subscriber that lags further than that is given `Lagged` rather than
/// ever blocking the producer.
pub proof fn lemma_window_bounded(b: &LineBroadcaster)
    requires
        b.wf(),
    ensures
        0 <= b.dropped_before() <= b.total(),
        b.total() - b.dropped_before() <= b.capacity(),
{
}

} // verus!
