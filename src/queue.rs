//! The bounded line queue that collects a daemon's output until the host
//! drains it. When full, the oldest line makes room for the newest.

use crate::text::string_views;
use std::collections::VecDeque;
use vstd::prelude::*;

verus! {

/// How many lines a queue holds at most.
pub const QUEUE_CAPACITY: usize = 10_000;

/// The last `n` elements of `s` (all of `s` when it is shorter).
pub open spec fn keep_last<T>(s: Seq<T>, n: nat) -> Seq<T> {
    if s.len() > n {
        s.subrange(s.len() - n, s.len() as int)
    } else {
        s
    }
}

/// The queue after one push onto `q`.
pub open spec fn bounded_push(q: Seq<Seq<char>>, line: Seq<char>) -> Seq<Seq<char>> {
    keep_last(q.push(line), QUEUE_CAPACITY as nat)
}

/// The queue after pushing each of `xs` onto `q`, in order.
pub open spec fn bounded_push_all(q: Seq<Seq<char>>, xs: Seq<Seq<char>>) -> Seq<Seq<char>>
    decreases xs.len(),
{
    if xs.len() == 0 {
        q
    } else {
        bounded_push(bounded_push_all(q, xs.drop_last()), xs.last())
    }
}

/// An ordered, capacity-bounded sequence of output lines.
pub struct OutputQueue {
    lines: VecDeque<String>,
}

impl View for OutputQueue {
    type V = Seq<Seq<char>>;

    closed spec fn view(&self) -> Seq<Seq<char>> {
        string_views(self.lines@)
    }
}

impl OutputQueue {
    /// The queue holds no more lines than its capacity.
    pub open spec fn wf(&self) -> bool {
        self@.len() <= QUEUE_CAPACITY
    }

    pub fn len(&self) -> (r: usize)
        ensures
            r == self@.len(),
    {
        self.lines.len()
    }

    pub fn is_empty(&self) -> (r: bool)
        ensures
            r == (self@.len() == 0),
    {
        self.lines.len() == 0
    }

    /// Removes every queued line and returns them in the order they were pushed.
    pub fn drain_all(&mut self) -> (r: Vec<String>)
        ensures
            string_views(r@) == old(self)@,
            final(self)@.len() == 0,
    {
        let mut out: Vec<String> = Vec::new();
        let ghost start = self.lines@;
        while self.lines.len() > 0
            invariant
                out@ + self.lines@ == start,
            decreases self.lines@.len(),
        {
            let ghost before = self.lines@;
            match self.lines.pop_front() {
                Some(l) => {
                    out.push(l);
                    assert(out@ + self.lines@ =~= start);
                },
                None => {},
            }
        }
        assert(out@ =~= start);
        assert(string_views(out@) =~= string_views(start));
        out
    }
}

/// An empty queue.
pub fn new_queue() -> (r: OutputQueue)
    ensures
        r@.len() == 0,
        r.wf(),
{
    let r = OutputQueue { lines: VecDeque::new() };
    assert(r@ =~= Seq::<Seq<char>>::empty());
    r
}

/// Appends `line`, discarding the oldest line first when the queue is full.
pub fn push_line(queue: &mut OutputQueue, line: String)
    ensures
        final(queue)@ == bounded_push(old(queue)@, line@),
        final(queue).wf(),
{
    let ghost before = queue.lines@;
    while queue.lines.len() >= QUEUE_CAPACITY
        invariant
            queue.lines@.len() <= before.len(),
            queue.lines@ == before.subrange(
                before.len() - queue.lines@.len(),
                before.len() as int,
            ),
            before.len() >= QUEUE_CAPACITY ==> queue.lines@.len() >= QUEUE_CAPACITY - 1,
            before.len() < QUEUE_CAPACITY ==> queue.lines@ == before,
        decreases queue.lines@.len(),
    {
        queue.lines.pop_front();
        assert(queue.lines@ =~= before.subrange(
            before.len() - queue.lines@.len(),
            before.len() as int,
        ));
    }
    queue.lines.push_back(line);
    proof {
        let pushed = string_views(before).push(line@);
        if before.len() >= QUEUE_CAPACITY {
            assert(string_views(queue.lines@) =~= pushed.subrange(
                pushed.len() - QUEUE_CAPACITY,
                pushed.len() as int,
            ));
        } else {
            assert(string_views(queue.lines@) =~= pushed);
        }
    }
}

/// Appends a copy of `msg`, as [`push_line`] does.
pub fn push_msg(queue: &mut OutputQueue, msg: &str)
    ensures
        final(queue)@ == bounded_push(old(queue)@, msg@),
        final(queue).wf(),
{
    push_line(queue, msg.to_owned());
}

/// Pushing beyond the capacity keeps exactly the most recent lines, in order:
/// after any run of pushes the queue holds the last `QUEUE_CAPACITY` of
/// everything pushed, and never more than that many lines. In particular,
/// more than `QUEUE_CAPACITY` pushes onto an empty queue leave exactly the
/// last `QUEUE_CAPACITY` of them.
pub proof fn lemma_push_keeps_most_recent(q: Seq<Seq<char>>, xs: Seq<Seq<char>>)
    requires
        q.len() <= QUEUE_CAPACITY,
    ensures
        bounded_push_all(q, xs) == keep_last(q + xs, QUEUE_CAPACITY as nat),
        bounded_push_all(q, xs).len() <= QUEUE_CAPACITY,
        q.len() == 0 && xs.len() > QUEUE_CAPACITY ==> bounded_push_all(q, xs) == xs.subrange(
            xs.len() - QUEUE_CAPACITY,
            xs.len() as int,
        ) && bounded_push_all(q, xs).len() == QUEUE_CAPACITY,
    decreases xs.len(),
{
    let n = QUEUE_CAPACITY as nat;
    if xs.len() == 0 {
        assert(q + xs =~= q);
    } else {
        let init = xs.drop_last();
        lemma_push_keeps_most_recent(q, init);
        let s = q + init;
        assert(q + xs =~= s.push(xs.last()));
        if s.len() > n {
            assert(keep_last(s, n).push(xs.last()) =~= s.push(xs.last()).subrange(
                s.len() - n as int,
                (s.len() + 1) as int,
            ));
            assert(keep_last(keep_last(s, n).push(xs.last()), n) =~= keep_last(
                s.push(xs.last()),
                n,
            ));
        }
    }
    if q.len() == 0 {
        assert(q + xs =~= xs);
    }
}

} // verus!
