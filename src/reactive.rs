//! Fine-grained reactivity: signals, effects and memos kept in one explicit
//! runtime.
//!
//! A [`Runtime`] is an arena. Signal cells and observers (effects and memos)
//! live in it and are addressed by small copyable handles. User code (an
//! effect body, a memo computation, a batched block) is a [`Task`] that runs
//! against the runtime, so every read it makes is attributed to the observer
//! on top of the observer stack.
use vstd::prelude::*;

verus! {

/// User code that the runtime runs: an effect body, a memo computation or a
/// block handed to [`batch`], [`untracked`] or [`Scope::run`].
///
/// A memo keeps what `run` returns; an effect and a block return `None`.
/// An implementation reaches the runtime only through its public operations,
/// all of which keep it well formed and never remove a signal or an observer.
pub trait Task<T>: Sized {
    /// What a run does: run on runtime `before`, it left the runtime as
    /// `after`, itself as `next`, and returned `out`. An implementation
    /// states what its own runs do; one that states nothing allows any run.
    open spec fn ran(&self, before: Runtime<T, Self>, after: Runtime<T, Self>, next: Self, out: Option<T>) -> bool {
        true
    }

    fn run(&mut self, rt: &mut Runtime<T, Self>) -> (r: Option<T>)
        requires
            old(rt).wf(),
        ensures
            final(rt).wf(),
            old(rt).extended_by(*final(rt)),
            old(self).ran(*old(rt), *final(rt), *final(self), r),
    ;
}

/// A handle on a signal cell of a [`Runtime`].
#[derive(Clone, Copy, PartialEq, Eq, Structural, Debug)]
pub struct Signal {
    id: usize,
}

/// A handle on an effect of a [`Runtime`].
#[derive(Clone, Copy, PartialEq, Eq, Structural, Debug)]
pub struct Effect {
    id: usize,
}

/// A handle on a memo of a [`Runtime`].
#[derive(Clone, Copy, PartialEq, Eq, Structural, Debug)]
pub struct Memo {
    id: usize,
}

impl Effect {
    /// The id of this effect among the observers of its runtime.
    pub closed spec fn observer_id(self) -> usize {
        self.id
    }
}

impl Memo {
    /// The id of this memo among the observers of its runtime.
    pub closed spec fn observer_id(self) -> usize {
        self.id
    }
}

/// Errors of the reactive core.
#[derive(Clone, Copy, PartialEq, Eq, Structural, Debug)]
pub enum ReactiveError {
    /// A memo was read while it held no value: its computation produced none.
    MemoValueMissing,
}

struct Cell<T> {
    value: T,
    subscribers: Vec<usize>,
}

enum Node<T> {
    Effect { disposed: bool },
    Memo { dirty: bool, value: Option<T>, subscribers: Vec<usize> },
}

/// The reactive graph: signal cells, observers, the observer stack, the
/// pending observers and the batching depth.
pub struct Runtime<T, B> {
    cells: Vec<Cell<T>>,
    nodes: Vec<Node<T>>,
    bodies: Vec<Option<B>>,
    stack: Vec<usize>,
    pending: Vec<usize>,
    batch_depth: usize,
}

/// `p` after `x` is queued: an id already queued is not added again.
pub open spec fn enqueued(p: Seq<usize>, x: usize) -> Seq<usize> {
    if p.contains(x) {
        p
    } else {
        p.push(x)
    }
}

/// `p` after each of `xs` is queued, in order.
pub open spec fn enqueued_all(p: Seq<usize>, xs: Seq<usize>) -> Seq<usize>
    decreases xs.len(),
{
    if xs.len() == 0 {
        p
    } else {
        enqueued(enqueued_all(p, xs.drop_last()), xs.last())
    }
}

/// `s` with `x` added unless already there.
pub open spec fn subscribed(s: Seq<usize>, x: usize) -> Seq<usize> {
    if s.contains(x) {
        s
    } else {
        s.push(x)
    }
}

/// The observer that a read made in state `stack` is attributed to.
pub open spec fn top(stack: Seq<usize>) -> Option<usize> {
    if stack.len() == 0 {
        None
    } else {
        Some(stack.last())
    }
}

/// `subs` after a read attributed to the top of `stack`.
pub open spec fn after_read(subs: Seq<usize>, stack: Seq<usize>) -> Seq<usize> {
    match top(stack) {
        Some(o) => subscribed(subs, o),
        None => subs,
    }
}

/// Every id in `s` is below `n`.
pub open spec fn ids_below(s: Seq<usize>, n: nat) -> bool {
    forall|i: int| 0 <= i < s.len() ==> (s[i] as nat) < n
}

impl<T> Cell<T> {
    spec fn wf(&self, n: nat) -> bool {
        ids_below(self.subscribers@, n)
    }
}

impl<T> Node<T> {
    spec fn wf(&self, n: nat) -> bool {
        match self {
            Node::Effect { .. } => true,
            Node::Memo { subscribers, .. } => ids_below(subscribers@, n),
        }
    }

    spec fn is_memo(&self) -> bool {
        self is Memo
    }
}

impl<T, B> Runtime<T, B> {
    /// The runtime's internal consistency: every id it records names an
    /// observer, and each observer has a body slot.
    pub closed spec fn wf(&self) -> bool {
        &&& self.bodies.len() == self.nodes.len()
        &&& forall|i: int| 0 <= i < self.cells.len() ==> #[trigger] self.cells[i].wf(self.nodes.len() as nat)
        &&& forall|i: int| 0 <= i < self.nodes.len() ==> #[trigger] self.nodes[i].wf(self.nodes.len() as nat)
        &&& ids_below(self.stack@, self.nodes.len() as nat)
        &&& ids_below(self.pending@, self.nodes.len() as nat)
    }

    /// `other` is this runtime after operations that only add: every signal
    /// and observer here is still there, and of the same kind.
    pub closed spec fn extended_by(&self, other: Self) -> bool {
        &&& self.cells.len() <= other.cells.len()
        &&& self.nodes.len() <= other.nodes.len()
        &&& forall|i: int| 0 <= i < self.nodes.len() ==> (#[trigger] other.nodes[i].is_memo() == self.nodes[i].is_memo())
        &&& forall|i: int|
            0 <= i < self.nodes.len() && self.nodes[i].is_disposed_effect() ==> #[trigger] other.nodes[i].is_disposed_effect()
    }

    /// `s` was made by this runtime.
    pub closed spec fn has_signal(&self, s: Signal) -> bool {
        s.id < self.cells.len()
    }

    /// `e` was made by this runtime as an effect.
    pub closed spec fn has_effect(&self, e: Effect) -> bool {
        e.id < self.nodes.len() && self.nodes[e.id as int] is Effect
    }

    /// `m` was made by this runtime as a memo.
    pub closed spec fn has_memo(&self, m: Memo) -> bool {
        m.id < self.nodes.len() && self.nodes[m.id as int] is Memo
    }

    /// The number of observers (effects and memos) made so far.
    pub closed spec fn observer_count(&self) -> nat {
        self.nodes.len() as nat
    }

    /// The number of signals made so far.
    pub closed spec fn signal_count(&self) -> nat {
        self.cells.len() as nat
    }

    /// The current value of `s`.
    pub closed spec fn value(&self, s: Signal) -> T {
        self.cells[s.id as int].value
    }

    /// The observers subscribed to `s`, in the order they first read it.
    pub closed spec fn subscribers(&self, s: Signal) -> Seq<usize> {
        self.cells[s.id as int].subscribers@
    }

    /// The observer ids waiting to run; the last one runs first.
    pub closed spec fn pending(&self) -> Seq<usize> {
        self.pending@
    }

    /// The observers currently computing, innermost last.
    pub closed spec fn observer_stack(&self) -> Seq<usize> {
        self.stack@
    }

    /// Whether writes only queue their subscribers, without running them.
    pub closed spec fn batching(&self) -> bool {
        self.batch_depth > 0
    }

    /// Whether `e` has been disposed.
    pub closed spec fn disposed(&self, e: Effect) -> bool {
        match self.nodes[e.id as int] {
            Node::Effect { disposed } => disposed,
            Node::Memo { .. } => false,
        }
    }

    /// Whether the cached value of `m` must be recomputed before use.
    pub closed spec fn dirty(&self, m: Memo) -> bool {
        match self.nodes[m.id as int] {
            Node::Memo { dirty, .. } => dirty,
            Node::Effect { .. } => false,
        }
    }

    /// The cached value of `m`, if it has one.
    pub closed spec fn cached(&self, m: Memo) -> Option<T> {
        match self.nodes[m.id as int] {
            Node::Memo { value, .. } => value,
            Node::Effect { .. } => None,
        }
    }

    /// The observers subscribed to `m`.
    pub closed spec fn memo_subscribers(&self, m: Memo) -> Seq<usize> {
        match self.nodes[m.id as int] {
            Node::Memo { subscribers, .. } => subscribers@,
            Node::Effect { .. } => Seq::empty(),
        }
    }

}

impl<T, B: Task<T>> Runtime<T, B> {
    /// A runtime with no signals and no observers.
    pub fn new() -> (r: Self)
        ensures
            r.wf(),
            r.signal_count() == 0,
            r.observer_count() == 0,
            r.pending() == Seq::<usize>::empty(),
            r.observer_stack() == Seq::<usize>::empty(),
            !r.batching(),
    {
        Runtime {
            cells: Vec::new(),
            nodes: Vec::new(),
            bodies: Vec::new(),
            stack: Vec::new(),
            pending: Vec::new(),
            batch_depth: 0,
        }
    }
}


/// Whether `x` occurs in `v`.
fn contains_id(v: &Vec<usize>, x: usize) -> (r: bool)
    ensures
        r == v@.contains(x),
{
    let mut i: usize = 0;
    while i < v.len()
        invariant
            i <= v.len(),
            forall|j: int| 0 <= j < i ==> v@[j] != x,
        decreases v.len() - i,
    {
        if v[i] == x {
            return true;
        }
        i = i + 1;
    }
    false
}

/// Adds `x` to `subs` unless it is already there.
fn subscribe(subs: &mut Vec<usize>, x: usize)
    ensures
        final(subs)@ == subscribed(old(subs)@, x),
{
    if !contains_id(subs, x) {
        subs.push(x);
    }
}

impl<T, B> Runtime<T, B> {
    /// The same runtime but for its pending list.
    closed spec fn same_but_pending(&self, other: Self) -> bool {
        &&& self.cells == other.cells
        &&& self.nodes == other.nodes
        &&& self.bodies == other.bodies
        &&& self.stack == other.stack
        &&& self.batch_depth == other.batch_depth
    }

    /// Every signal other than `s` has the same value and subscribers in
    /// `other`.
    pub closed spec fn other_signals_kept(&self, other: Self, s: Signal) -> bool {
        &&& self.cells.len() == other.cells.len()
        &&& forall|j: int| 0 <= j < self.cells.len() && j != s.id ==> #[trigger] other.cells[j] == self.cells[j]
    }

    /// Nothing but signal cells differs between this runtime and `other`.
    pub closed spec fn observers_kept(&self, other: Self) -> bool {
        &&& self.nodes == other.nodes
        &&& self.bodies == other.bodies
        &&& self.stack == other.stack
        &&& self.pending == other.pending
        &&& self.batch_depth == other.batch_depth
    }
}

impl<T, B: Task<T>> Runtime<T, B> {
    /// Queues each of `subs` that is not queued yet.
    fn enqueue_all(&mut self, subs: &Vec<usize>)
        requires
            old(self).wf(),
            ids_below(subs@, old(self).nodes.len() as nat),
        ensures
            final(self).wf(),
            final(self).pending@ == enqueued_all(old(self).pending@, subs@),
            old(self).same_but_pending(*final(self)),
    {
        let mut i: usize = 0;
        while i < subs.len()
            invariant
                i <= subs.len(),
                self.wf(),
                ids_below(subs@, self.nodes.len() as nat),
                self.pending@ == enqueued_all(old(self).pending@, subs@.subrange(0, i as int)),
                old(self).same_but_pending(*self),
            decreases subs.len() - i,
        {
            let o = subs[i];
            if !contains_id(&self.pending, o) {
                self.pending.push(o);
            }
            assert(subs@.subrange(0, i + 1).drop_last() == subs@.subrange(0, i as int));
            i = i + 1;
        }
        assert(subs@.subrange(0, subs@.len() as int) == subs@);
    }

    /// Subscribes the observer on top of the stack, if any, to signal `id`.
    fn track_signal(&mut self, id: usize)
        requires
            old(self).wf(),
            id < old(self).cells.len(),
        ensures
            final(self).wf(),
            final(self).cells.len() == old(self).cells.len(),
            final(self).cells[id as int].value == old(self).cells[id as int].value,
            final(self).cells[id as int].subscribers@ == after_read(old(self).cells[id as int].subscribers@, old(self).stack@),
            forall|j: int| 0 <= j < old(self).cells.len() && j != id ==> #[trigger] final(self).cells[j] == old(self).cells[j],
            old(self).observers_kept(*final(self)),
    {
        let n = self.stack.len();
        if n > 0 {
            let o = self.stack[n - 1];
            let ghost before = self.cells[id as int].subscribers@;
            subscribe(&mut self.cells[id].subscribers, o);
            proof {
                assert(self.cells[id as int].wf(self.nodes.len() as nat)) by {
                    assert(old(self).cells[id as int].wf(self.nodes.len() as nat));
                    assert(ids_below(before, self.nodes.len() as nat));
                    assert(forall|i: int| 0 <= i < before.len() ==> before.push(o)[i] == before[i]);
                }
            }
        }
        assert(forall|i: int| 0 <= i < self.cells.len() ==> #[trigger] self.cells[i].wf(self.nodes.len() as nat)) by {
            assert(forall|i: int| 0 <= i < old(self).cells.len() ==> #[trigger] old(self).cells[i].wf(self.nodes.len() as nat));
        }
    }
}


impl<T> Node<T> {
    spec fn is_live_effect(&self) -> bool {
        match self {
            Node::Effect { disposed } => !*disposed,
            Node::Memo { .. } => false,
        }
    }

    spec fn is_disposed_effect(&self) -> bool {
        match self {
            Node::Effect { disposed } => *disposed,
            Node::Memo { .. } => false,
        }
    }

    fn memo_node(&self) -> (r: bool)
        ensures
            r == self.is_memo(),
    {
        match self {
            Node::Memo { .. } => true,
            Node::Effect { .. } => false,
        }
    }

    fn live_effect(&self) -> (r: bool)
        ensures
            r == self.is_live_effect(),
    {
        match self {
            Node::Effect { disposed } => !*disposed,
            Node::Memo { .. } => false,
        }
    }
}

impl<T, B> Runtime<T, B> {
    /// This runtime and `other` hold the same state.
    pub closed spec fn same_as(&self, other: Self) -> bool {
        &&& self.cells == other.cells
        &&& self.nodes == other.nodes
        &&& self.bodies@ == other.bodies@
        &&& self.stack@ == other.stack@
        &&& self.pending@ == other.pending@
        &&& self.batch_depth == other.batch_depth
    }

    /// What running observer `id` does when it is a memo: it is marked
    /// dirty and its own subscribers are queued, nothing else changes.
    pub closed spec fn memo_invalidated(&self, other: Self, id: usize) -> bool {
        &&& other.cells == self.cells
        &&& other.bodies == self.bodies
        &&& other.stack@ == self.stack@
        &&& other.batch_depth == self.batch_depth
        &&& other.nodes.len() == self.nodes.len()
        &&& forall|j: int| 0 <= j < self.nodes.len() && j != id ==> #[trigger] other.nodes[j] == self.nodes[j]
        &&& match (self.nodes[id as int], other.nodes[id as int]) {
            (Node::Memo { value: v0, subscribers: s0, .. }, Node::Memo { dirty, value, subscribers }) =>
                dirty && value == v0 && subscribers@ == s0@ && other.pending@ == enqueued_all(self.pending@, s0@),
            _ => false,
        }
    }
}

impl<T, B> Runtime<T, B> {
    /// The number of body slots: one per observer.
    pub closed spec fn body_count(&self) -> nat {
        self.bodies.len() as nat
    }

    /// The body kept for observer `id`; `None` while it is running.
    pub closed spec fn body(&self, id: usize) -> Option<B> {
        self.bodies[id as int]
    }

    /// `other` is this runtime with observer `id` pushed on the observer
    /// stack and its body taken out to run; nothing else differs.
    pub closed spec fn entered(&self, other: Self, id: usize) -> bool {
        &&& other.cells == self.cells
        &&& other.nodes == self.nodes
        &&& other.stack@ == self.stack@.push(id)
        &&& other.pending@ == self.pending@
        &&& other.batch_depth == self.batch_depth
        &&& id < self.bodies@.len()
        &&& other.bodies@ == self.bodies@.update(id as int, None)
    }

    /// `other` is this runtime once the body of observer `id` came back as
    /// `next`: the body is put back and the observer stack is `stack` again;
    /// nothing else differs.
    pub closed spec fn left(&self, other: Self, id: usize, stack: Seq<usize>, next: B) -> bool {
        &&& other.cells == self.cells
        &&& other.nodes == self.nodes
        &&& other.stack@ == stack
        &&& other.pending@ == self.pending@
        &&& other.batch_depth == self.batch_depth
        &&& id < self.bodies@.len()
        &&& other.bodies@ == self.bodies@.update(id as int, Some(next))
    }

    /// `other` is this runtime with the last pending id taken off the list.
    pub closed spec fn popped(&self, other: Self) -> bool {
        &&& self.pending@.len() > 0
        &&& other.cells == self.cells
        &&& other.nodes == self.nodes
        &&& other.bodies == self.bodies
        &&& other.stack@ == self.stack@
        &&& other.pending@ == self.pending@.drop_last()
        &&& other.batch_depth == self.batch_depth
    }

    /// `other` is this runtime with the batching depth raised by one (it
    /// stays at `usize::MAX` once there); nothing else differs.
    pub closed spec fn raised(&self, other: Self) -> bool {
        &&& other.cells == self.cells
        &&& other.nodes == self.nodes
        &&& other.bodies == self.bodies
        &&& other.stack@ == self.stack@
        &&& other.pending@ == self.pending@
        &&& other.batch_depth == if self.batch_depth < usize::MAX {
            self.batch_depth + 1
        } else {
            self.batch_depth as int
        }
    }

    /// `other` is this runtime with the observer stack emptied; nothing
    /// else differs.
    pub closed spec fn emptied(&self, other: Self) -> bool {
        &&& other.cells == self.cells
        &&& other.nodes == self.nodes
        &&& other.bodies == self.bodies
        &&& other.stack@ == Seq::<usize>::empty()
        &&& other.pending@ == self.pending@
        &&& other.batch_depth == self.batch_depth
    }

    /// `other` is this runtime with the observer stack and the batching
    /// depth put back to those of `base`; nothing else differs.
    pub closed spec fn restored(&self, other: Self, base: Self) -> bool {
        &&& other.cells == self.cells
        &&& other.nodes == self.nodes
        &&& other.bodies == self.bodies
        &&& other.stack@ == base.stack@
        &&& other.pending@ == self.pending@
        &&& other.batch_depth == base.batch_depth
    }

    /// `other` is this runtime with the observer stack put back to that of
    /// `base`; nothing else differs.
    pub closed spec fn restacked(&self, other: Self, base: Self) -> bool {
        &&& other.cells == self.cells
        &&& other.nodes == self.nodes
        &&& other.bodies == self.bodies
        &&& other.stack@ == base.stack@
        &&& other.pending@ == self.pending@
        &&& other.batch_depth == self.batch_depth
    }

    /// `other` is this runtime after the caller, if any, subscribed to memo
    /// `m`; nothing else differs.
    pub closed spec fn memo_tracked(&self, other: Self, m: Memo) -> bool {
        &&& self.only_node_changed(other, m.id)
        &&& other.nodes[m.id as int] is Memo
        &&& other.dirty(m) == self.dirty(m)
        &&& other.cached(m) == self.cached(m)
        &&& other.memo_subscribers(m) == after_read(self.memo_subscribers(m), self.stack@)
    }

    /// `other` is this runtime once the computation of memo `id` is over:
    /// its body, if it ran, is put back as `body`, the observer stack is
    /// `stack` again, and the memo is clean, caching `out`.
    pub closed spec fn settled(&self, other: Self, id: usize, stack: Seq<usize>, body: Option<B>, out: Option<T>) -> bool {
        &&& other.cells == self.cells
        &&& other.stack@ == stack
        &&& other.pending@ == self.pending@
        &&& other.batch_depth == self.batch_depth
        &&& id < self.bodies@.len()
        &&& other.bodies@ == match body {
            Some(n) => self.bodies@.update(id as int, Some(n)),
            None => self.bodies@,
        }
        &&& match self.nodes[id as int] {
            Node::Memo { subscribers, .. } => other.nodes@ == self.nodes@.update(
                id as int,
                Node::Memo { dirty: false, value: out, subscribers },
            ),
            Node::Effect { .. } => false,
        }
    }

    /// `other` is this runtime with its pending list emptied.
    pub closed spec fn cleared(&self, other: Self) -> bool {
        &&& other.cells == self.cells
        &&& other.nodes == self.nodes
        &&& other.bodies == self.bodies
        &&& other.stack@ == self.stack@
        &&& other.pending@ == Seq::<usize>::empty()
        &&& other.batch_depth == self.batch_depth
    }
}

impl<T, B: Task<T>> Runtime<T, B> {
    /// `other` is this runtime after the body of observer `id` ran once with
    /// `id` on top of the observer stack, the stack being restored after.
    /// With no body to run (it is already running), nothing changes.
    pub open spec fn ran_body(&self, other: Self, id: usize) -> bool {
        match self.body(id) {
            Some(b) => exists|mid: Self, after: Self, next: B, out: Option<T>|
                #![trigger b.ran(mid, after, next, out)]
                self.entered(mid, id) && b.ran(mid, after, next, out) && after.left(other, id, self.observer_stack(), next),
            None => self.same_as(other),
        }
    }

    /// `other` is this runtime after observer `id` was run: a memo is only
    /// marked dirty with its subscribers queued, a disposed effect is
    /// skipped, and a live effect runs its body.
    pub open spec fn runs(&self, other: Self, id: usize) -> bool {
        if self.is_memo_id(id) {
            self.memo_invalidated(other, id)
        } else if self.is_disposed_id(id) {
            self.same_as(other)
        } else {
            self.ran_body(other, id)
        }
    }

    /// `other` is this runtime after memo `id` recomputed: its body ran once
    /// with `id` on top of the observer stack, and what it returned is
    /// cached. With no body to run (it is already running), the memo caches
    /// nothing.
    pub open spec fn recomputed(&self, other: Self, id: usize) -> bool {
        match self.body(id) {
            Some(b) => exists|mid: Self, after: Self, next: B, out: Option<T>|
                #![trigger b.ran(mid, after, next, out)]
                self.entered(mid, id) && b.ran(mid, after, next, out) && after.settled(
                    other,
                    id,
                    self.observer_stack(),
                    Some(next),
                    out,
                ),
            None => self.settled(other, id, self.observer_stack(), None, None),
        }
    }

    /// One step of a flush: the most recently queued id is taken off the
    /// pending list and run.
    pub open spec fn flush_step(&self, other: Self) -> bool {
        exists|p: Self| #[trigger] self.popped(p) && p.runs(other, self.pending().last())
    }

    /// `other` is this runtime after a flush: steps taken one after another
    /// from this runtime until nothing is pending, then the pending list
    /// emptied. It already is empty, unless the flush was cut off after
    /// `usize::MAX` runs.
    pub open spec fn flushed(&self, other: Self) -> bool {
        exists|trace: Seq<Self>|
            #![trigger trace.last()]
            trace.len() >= 1 && trace[0] == *self && (forall|i: int|
                0 <= i < trace.len() - 1 ==> #[trigger] trace[i].flush_step(trace[i + 1])) && (trace.last().pending().len()
                == 0 || trace.len() > usize::MAX) && trace.last().cleared(other)
    }
}

impl<T, B> Runtime<T, B> {
    /// Whether observer `id` is a memo.
    pub closed spec fn is_memo_id(&self, id: usize) -> bool {
        self.nodes[id as int] is Memo
    }

    /// Whether observer `id` is a disposed effect.
    pub closed spec fn is_disposed_id(&self, id: usize) -> bool {
        self.nodes[id as int].is_disposed_effect()
    }
}

impl<T, B: Task<T>> Runtime<T, B> {
    pub proof fn lemma_extended_trans(a: Self, b: Self, c: Self)
        requires
            a.extended_by(b),
            b.extended_by(c),
        ensures
            a.extended_by(c),
    {
        assert forall|i: int| 0 <= i < a.nodes.len() implies (#[trigger] c.nodes[i].is_memo() == a.nodes[i].is_memo()) by {
            assert(b.nodes[i].is_memo() == a.nodes[i].is_memo());
        }
        assert forall|i: int| 0 <= i < a.nodes.len() && a.nodes[i].is_disposed_effect() implies #[trigger] c.nodes[i].is_disposed_effect() by {
            assert(b.nodes[i].is_disposed_effect());
        }
    }

    /// Marks memo `id` dirty and queues its subscribers, without recomputing.
    fn invalidate_memo(&mut self, id: usize)
        requires
            old(self).wf(),
            id < old(self).nodes.len(),
            old(self).nodes[id as int] is Memo,
        ensures
            final(self).wf(),
            old(self).memo_invalidated(*final(self), id),
    {
        assert(old(self).nodes[id as int].wf(old(self).nodes.len() as nat));
        let mut node = Node::Effect { disposed: false };
        std::mem::swap(&mut self.nodes[id], &mut node);
        match node {
            Node::Memo { dirty: _, value, subscribers } => {
                let subs = subscribers.clone();
                assert(subs@ == subscribers@);
                self.nodes[id] = Node::Memo { dirty: true, value, subscribers };
                assert(forall|i: int| 0 <= i < self.nodes.len() ==> #[trigger] self.nodes[i].wf(self.nodes.len() as nat)) by {
                    assert(forall|i: int| 0 <= i < old(self).nodes.len() ==> #[trigger] old(self).nodes[i].wf(self.nodes.len() as nat));
                }
                self.enqueue_all(&subs);
            },
            Node::Effect { .. } => {},
        }
    }

    /// Runs observer `id`: an effect that is not disposed runs its body with
    /// itself as the current observer; a memo is invalidated; a disposed
    /// effect is skipped, and so is an effect whose body is already running
    /// further up the call stack.
    fn run_effect(&mut self, id: usize)
        requires
            old(self).wf(),
            id < old(self).nodes.len(),
        ensures
            final(self).wf(),
            old(self).extended_by(*final(self)),
            final(self).stack@ == old(self).stack@,
            old(self).runs(*final(self), id),
    {
        if self.nodes[id].memo_node() {
            self.invalidate_memo(id);
        } else if self.nodes[id].live_effect() {
            let saved = self.stack.clone();
            assert(saved@ == old(self).stack@);
            self.stack.push(id);
            let mut body: Option<B> = None;
            std::mem::swap(&mut self.bodies[id], &mut body);
            let ghost before_run = *self;
            assert(old(self).entered(before_run, id));
            match body {
                Some(mut b) => {
                    let ghost b0 = b;
                    let out = b.run(self);
                    let ghost after = *self;
                    self.bodies[id] = Some(b);
                    self.stack = saved;
                    proof {
                        assert(after.left(*self, id, old(self).stack@, b));
                        assert(b0.ran(before_run, after, b, out));
                        assert(old(self).body(id) == Some(b0));
                    }
                },
                None => {
                    self.stack = saved;
                    proof {
                        assert(old(self).bodies@ =~= before_run.bodies@);
                        assert(self.bodies@ == old(self).bodies@);
                    }
                },
            }
            proof {
                assert(old(self).extended_by(before_run));
                assert(before_run.extended_by(*self));
                Self::lemma_extended_trans(*old(self), before_run, *self);
            }
        }
    }

    /// Runs pending observers, the most recently queued first, until none is
    /// left. Observers that keep waking one another are cut off after
    /// `usize::MAX` runs, and what is still queued then is dropped.
    fn flush_effects(&mut self)
        requires
            old(self).wf(),
        ensures
            final(self).wf(),
            old(self).extended_by(*final(self)),
            final(self).stack@ == old(self).stack@,
            final(self).pending@.len() == 0,
            old(self).pending@.len() == 0 ==> old(self).same_as(*final(self)),
            old(self).flushed(*final(self)),
    {
        let ghost mut trace: Seq<Self> = seq![*self];
        let mut budget: usize = usize::MAX;
        while budget > 0
            invariant
                self.wf(),
                old(self).extended_by(*self),
                self.stack@ == old(self).stack@,
                old(self).pending@.len() == 0 ==> old(self).same_as(*self),
                trace.len() >= 1,
                trace.len() == usize::MAX - budget + 1,
                trace[0] == *old(self),
                trace.last() == *self,
                forall|i: int| 0 <= i < trace.len() - 1 ==> #[trigger] trace[i].flush_step(trace[i + 1]),
            decreases budget,
        {
            let ghost before = *self;
            match self.pending.pop() {
                Some(id) => {
                    let ghost mid = *self;
                    assert(before.popped(mid));
                    self.run_effect(id);
                    proof {
                        Self::lemma_extended_trans(*old(self), mid, *self);
                        assert(before.flush_step(*self));
                        let t0 = trace;
                        trace = trace.push(*self);
                        assert forall|i: int| 0 <= i < trace.len() - 1 implies #[trigger] trace[i].flush_step(trace[i + 1]) by {
                            if i < t0.len() - 1 {
                                assert(trace[i] == t0[i] && trace[i + 1] == t0[i + 1]);
                            }
                        }
                    }
                },
                None => {
                    proof {
                        assert(self.pending@ =~= Seq::<usize>::empty());
                        assert(before.cleared(*self));
                    }
                    return;
                },
            }
            budget = budget - 1;
        }
        let ghost last = *self;
        self.pending.clear();
        assert(old(self).pending@.len() == 0 ==> self.pending@ =~= old(self).pending@);
        assert(last.cleared(*self));
    }
}


impl<T, B> Runtime<T, B> {
    /// Every signal of this runtime is in `other` with the same value and
    /// subscribers.
    pub closed spec fn keeps_signals(&self, other: Self) -> bool {
        &&& self.cells.len() <= other.cells.len()
        &&& forall|j: int| 0 <= j < self.cells.len() ==> #[trigger] other.cells[j] == self.cells[j]
    }

    /// `other` is this runtime after `s` was written with `v` while batching:
    /// the subscribers of `s` are queued and nothing else changes.
    pub closed spec fn wrote(&self, other: Self, s: Signal, v: T) -> bool {
        &&& other.cells.len() == self.cells.len()
        &&& other.cells[s.id as int].value == v
        &&& other.cells[s.id as int].subscribers == self.cells[s.id as int].subscribers
        &&& self.other_signals_kept(other, s)
        &&& other.nodes == self.nodes
        &&& other.bodies@ == self.bodies@
        &&& other.stack@ == self.stack@
        &&& other.batch_depth == self.batch_depth
        &&& other.pending@ == enqueued_all(self.pending@, self.cells[s.id as int].subscribers@)
    }

    /// `other` is this runtime with the subscribers of `s` queued; nothing
    /// else differs.
    pub closed spec fn queued(&self, other: Self, s: Signal) -> bool {
        &&& other.cells == self.cells
        &&& other.nodes == self.nodes
        &&& other.bodies@ == self.bodies@
        &&& other.stack@ == self.stack@
        &&& other.batch_depth == self.batch_depth
        &&& other.pending@ == enqueued_all(self.pending@, self.cells[s.id as int].subscribers@)
    }

    /// `other` is this runtime with a new effect `id` that holds `body`, not
    /// yet run; nothing else differs.
    pub closed spec fn added_effect(&self, other: Self, id: usize, body: B) -> bool {
        &&& id == self.nodes.len()
        &&& other.cells == self.cells
        &&& other.nodes@ == self.nodes@.push(Node::Effect { disposed: false })
        &&& other.bodies@ == self.bodies@.push(Some(body))
        &&& other.stack@ == self.stack@
        &&& other.pending@ == self.pending@
        &&& other.batch_depth == self.batch_depth
    }

    /// `other` differs from this runtime only in the state of observer `id`.
    pub closed spec fn only_node_changed(&self, other: Self, id: usize) -> bool {
        &&& other.cells == self.cells
        &&& other.bodies == self.bodies
        &&& other.stack@ == self.stack@
        &&& other.pending@ == self.pending@
        &&& other.batch_depth == self.batch_depth
        &&& other.nodes.len() == self.nodes.len()
        &&& forall|j: int| 0 <= j < self.nodes.len() && j != id ==> #[trigger] other.nodes[j] == self.nodes[j]
    }
}

impl<T, B: Task<T>> Runtime<T, B> {
    /// Stores `v` in signal `id` and queues its subscribers.
    fn store_value(&mut self, id: usize, v: T)
        requires
            old(self).wf(),
            id < old(self).cells.len(),
        ensures
            final(self).wf(),
            final(self).cells.len() == old(self).cells.len(),
            final(self).cells[id as int].value == v,
            final(self).cells[id as int].subscribers == old(self).cells[id as int].subscribers,
            old(self).other_signals_kept(*final(self), Signal { id }),
            final(self).nodes == old(self).nodes,
            final(self).bodies == old(self).bodies,
            final(self).stack == old(self).stack,
            final(self).pending == old(self).pending,
            final(self).batch_depth == old(self).batch_depth,
    {
        assert(old(self).cells[id as int].wf(self.nodes.len() as nat));
        self.cells[id].value = v;
        assert(forall|i: int| 0 <= i < self.cells.len() ==> #[trigger] self.cells[i].wf(self.nodes.len() as nat)) by {
            assert(forall|i: int| 0 <= i < old(self).cells.len() ==> #[trigger] old(self).cells[i].wf(self.nodes.len() as nat));
        }
    }

    /// Adds a new observer with the given state and body; its id is the
    /// number of observers made before it.
    fn add_node(&mut self, node: Node<T>, body: B) -> (id: usize)
        requires
            old(self).wf(),
            node.wf(old(self).nodes.len() as nat + 1),
        ensures
            final(self).wf(),
            old(self).extended_by(*final(self)),
            id == old(self).nodes.len(),
            final(self).nodes.len() == id + 1,
            final(self).nodes[id as int] == node,
            forall|j: int| 0 <= j < id ==> #[trigger] final(self).nodes[j] == old(self).nodes[j],
            final(self).nodes@ == old(self).nodes@.push(node),
            final(self).bodies@ == old(self).bodies@.push(Some(body)),
            final(self).cells == old(self).cells,
            final(self).stack@ == old(self).stack@,
            final(self).pending@ == old(self).pending@,
            final(self).batch_depth == old(self).batch_depth,
    {
        let id = self.nodes.len();
        self.nodes.push(node);
        self.bodies.push(Some(body));
        let ghost n = self.nodes.len() as nat;
        assert forall|i: int| 0 <= i < self.cells.len() implies #[trigger] self.cells[i].wf(n) by {
            assert(old(self).cells[i].wf(id as nat));
        }
        assert forall|i: int| 0 <= i < self.nodes.len() implies #[trigger] self.nodes[i].wf(n) by {
            if i < id {
                assert(old(self).nodes[i].wf(id as nat));
            }
        }
        id
    }
}

impl Signal {
    /// Creates a signal holding `value`, with no subscribers.
    pub fn new<T, B: Task<T>>(rt: &mut Runtime<T, B>, value: T) -> (s: Signal)
        requires
            old(rt).wf(),
        ensures
            final(rt).wf(),
            final(rt).has_signal(s),
            !old(rt).has_signal(s),
            final(rt).signal_count() == old(rt).signal_count() + 1,
            final(rt).value(s) == value,
            final(rt).subscribers(s) == Seq::<usize>::empty(),
            old(rt).keeps_signals(*final(rt)),
            old(rt).observers_kept(*final(rt)),
            old(rt).extended_by(*final(rt)),
    {
        let id = rt.cells.len();
        rt.cells.push(Cell { value, subscribers: Vec::new() });
        assert forall|i: int| 0 <= i < rt.cells.len() implies #[trigger] rt.cells[i].wf(rt.nodes.len() as nat) by {
            if i < id {
                assert(old(rt).cells[i].wf(rt.nodes.len() as nat));
            }
        }
        Signal { id }
    }

    /// Subscribes the current observer, if any, to this signal.
    fn track<T, B: Task<T>>(&self, rt: &mut Runtime<T, B>)
        requires
            old(rt).wf(),
            old(rt).has_signal(*self),
        ensures
            final(rt).wf(),
            final(rt).value(*self) == old(rt).value(*self),
            final(rt).subscribers(*self) == after_read(old(rt).subscribers(*self), old(rt).observer_stack()),
            old(rt).other_signals_kept(*final(rt), *self),
            old(rt).observers_kept(*final(rt)),
    {
        rt.track_signal(self.id);
    }

    /// Queues the subscribers of this signal and, outside a batch, runs
    /// everything that is pending.
    fn notify<T, B: Task<T>>(&self, rt: &mut Runtime<T, B>)
        requires
            old(rt).wf(),
            old(rt).has_signal(*self),
        ensures
            final(rt).wf(),
            old(rt).extended_by(*final(rt)),
            final(rt).observer_stack() == old(rt).observer_stack(),
            !old(rt).batching() ==> final(rt).pending().len() == 0,
            exists|mid: Runtime<T, B>|
                #[trigger] old(rt).queued(mid, *self) && (old(rt).batching() ==> mid.same_as(*final(rt))) && (
                !old(rt).batching() ==> mid.flushed(*final(rt)) && (mid.pending().len() == 0 ==> mid.same_as(
                    *final(rt),
                ))),
    {
        let subs = rt.cells[self.id].subscribers.clone();
        assert(subs@ == old(rt).cells[self.id as int].subscribers@);
        assert(old(rt).cells[self.id as int].wf(rt.nodes.len() as nat));
        rt.enqueue_all(&subs);
        let ghost mid = *rt;
        assert(old(rt).queued(mid, *self));
        if rt.batch_depth == 0 {
            rt.flush_effects();
            proof {
                Runtime::<T, B>::lemma_extended_trans(*old(rt), mid, *rt);
            }
        }
    }

    /// The value of this signal; the current observer, if any, becomes a
    /// subscriber.
    pub fn get<T: Clone, B: Task<T>>(&self, rt: &mut Runtime<T, B>) -> (r: T)
        requires
            old(rt).wf(),
            old(rt).has_signal(*self),
        ensures
            final(rt).wf(),
            final(rt).has_signal(*self),
            cloned(old(rt).value(*self), r),
            final(rt).value(*self) == old(rt).value(*self),
            final(rt).subscribers(*self) == after_read(old(rt).subscribers(*self), old(rt).observer_stack()),
            old(rt).other_signals_kept(*final(rt), *self),
            old(rt).observers_kept(*final(rt)),
            old(rt).extended_by(*final(rt)),
    {
        self.track(rt);
        rt.cells[self.id].value.clone()
    }

    /// What `f` makes of a borrowed view of the value; the current observer,
    /// if any, becomes a subscriber.
    pub fn with<T, B: Task<T>, R, F: FnOnce(&T) -> R>(&self, rt: &mut Runtime<T, B>, f: F) -> (r: R)
        requires
            old(rt).wf(),
            old(rt).has_signal(*self),
            f.requires((&old(rt).value(*self),)),
        ensures
            final(rt).wf(),
            final(rt).has_signal(*self),
            f.ensures((&old(rt).value(*self),), r),
            final(rt).value(*self) == old(rt).value(*self),
            final(rt).subscribers(*self) == after_read(old(rt).subscribers(*self), old(rt).observer_stack()),
            old(rt).other_signals_kept(*final(rt), *self),
            old(rt).observers_kept(*final(rt)),
            old(rt).extended_by(*final(rt)),
    {
        self.track(rt);
        f(&rt.cells[self.id].value)
    }

    /// Stores `value`, then notifies the subscribers: inside a batch they are
    /// only queued; outside, everything pending runs before this returns.
    pub fn set<T, B: Task<T>>(&self, rt: &mut Runtime<T, B>, value: T)
        requires
            old(rt).wf(),
            old(rt).has_signal(*self),
        ensures
            final(rt).wf(),
            final(rt).has_signal(*self),
            old(rt).extended_by(*final(rt)),
            final(rt).observer_stack() == old(rt).observer_stack(),
            old(rt).batching() ==> old(rt).wrote(*final(rt), *self, value),
            !old(rt).batching() ==> final(rt).pending().len() == 0,
            old(rt).pending().len() == 0 && old(rt).subscribers(*self).len() == 0
                ==> old(rt).wrote(*final(rt), *self, value),
            exists|mid: Runtime<T, B>|
                #[trigger] old(rt).wrote(mid, *self, value) && (old(rt).batching() ==> mid.same_as(*final(rt))) && (
                !old(rt).batching() ==> mid.flushed(*final(rt))),
    {
        rt.store_value(self.id, value);
        let ghost stored = *rt;
        proof {
            old(rt).lemma_extended_refl();
        }
        self.notify(rt);
        proof {
            let mid = choose|mid: Runtime<T, B>|
                #[trigger] stored.queued(mid, *self) && (stored.batching() ==> mid.same_as(*rt)) && (!stored.batching()
                    ==> mid.flushed(*rt) && (mid.pending().len() == 0 ==> mid.same_as(*rt)));
            assert(old(rt).wrote(mid, *self, value));
            assert(old(rt).extended_by(stored));
            Runtime::<T, B>::lemma_extended_trans(*old(rt), stored, *rt);
            old(rt).lemma_extended_keeps(*rt);
            if old(rt).pending().len() == 0 && old(rt).subscribers(*self).len() == 0 {
                assert(mid.pending@ =~= Seq::<usize>::empty());
            }
        }
    }

    /// Replaces the value with what `f` makes of it, then notifies the
    /// subscribers once, as [`Signal::set`] does.
    pub fn update<T: Clone, B: Task<T>, F: FnOnce(T) -> T>(&self, rt: &mut Runtime<T, B>, f: F)
        requires
            old(rt).wf(),
            old(rt).has_signal(*self),
            forall|c: T| cloned(old(rt).value(*self), c) ==> f.requires((c,)),
        ensures
            final(rt).wf(),
            final(rt).has_signal(*self),
            old(rt).extended_by(*final(rt)),
            final(rt).observer_stack() == old(rt).observer_stack(),
            exists|c: T, n: T|
                cloned(old(rt).value(*self), c) && #[trigger] f.ensures((c,), n) && (old(rt).batching()
                    || (old(rt).pending().len() == 0 && old(rt).subscribers(*self).len() == 0)
                    ==> old(rt).wrote(*final(rt), *self, n)) && exists|mid: Runtime<T, B>|
                    #[trigger] old(rt).wrote(mid, *self, n) && (old(rt).batching() ==> mid.same_as(*final(rt))) && (
                    !old(rt).batching() ==> mid.flushed(*final(rt))),
            !old(rt).batching() ==> final(rt).pending().len() == 0,
    {
        let current = rt.cells[self.id].value.clone();
        assert(cloned(old(rt).value(*self), current));
        assert(f.requires((current,)));
        let next = f(current);
        self.set(rt, next);
    }
}

impl Effect {
    /// Registers `body` as an effect and runs it at once, so that it
    /// subscribes to what it reads.
    pub fn new<T, B: Task<T>>(rt: &mut Runtime<T, B>, body: B) -> (e: Effect)
        requires
            old(rt).wf(),
        ensures
            final(rt).wf(),
            old(rt).extended_by(*final(rt)),
            final(rt).has_effect(e),
            e.observer_id() == old(rt).observer_count(),
            final(rt).observer_stack() == old(rt).observer_stack(),
            exists|added: Runtime<T, B>|
                #[trigger] old(rt).added_effect(added, e.observer_id(), body) && added.runs(*final(rt), e.observer_id()),
    {
        let ghost body0 = body;
        let id = rt.add_node(Node::Effect { disposed: false }, body);
        let ghost mid = *rt;
        assert(old(rt).added_effect(mid, id, body0));
        rt.run_effect(id);
        assert(mid.runs(*rt, id));
        assert(old(rt).added_effect(mid, (Effect { id }).observer_id(), body0));
        proof {
            Runtime::<T, B>::lemma_extended_trans(*old(rt), mid, *rt);
            assert(rt.nodes[id as int].is_memo() == mid.nodes[id as int].is_memo());
        }
        Effect { id }
    }

    /// Registers `body` as an effect without running it.
    pub fn new_deferred<T, B: Task<T>>(rt: &mut Runtime<T, B>, body: B) -> (e: Effect)
        requires
            old(rt).wf(),
        ensures
            final(rt).wf(),
            old(rt).extended_by(*final(rt)),
            final(rt).has_effect(e),
            !final(rt).disposed(e),
            e.observer_id() == old(rt).observer_count(),
            final(rt).observer_count() == old(rt).observer_count() + 1,
            old(rt).keeps_signals(*final(rt)),
            final(rt).keeps_signals(*old(rt)),
            final(rt).observer_stack() == old(rt).observer_stack(),
            final(rt).pending() == old(rt).pending(),
            final(rt).batching() == old(rt).batching(),
            old(rt).added_effect(*final(rt), e.observer_id(), body),
    {
        let id = rt.add_node(Node::Effect { disposed: false }, body);
        Effect { id }
    }

    /// Runs this effect now, unless it has been disposed.
    pub fn run<T, B: Task<T>>(&self, rt: &mut Runtime<T, B>)
        requires
            old(rt).wf(),
            old(rt).has_effect(*self),
        ensures
            final(rt).wf(),
            final(rt).has_effect(*self),
            old(rt).extended_by(*final(rt)),
            final(rt).observer_stack() == old(rt).observer_stack(),
            old(rt).disposed(*self) ==> old(rt).same_as(*final(rt)),
            old(rt).runs(*final(rt), self.observer_id()),
    {
        rt.run_effect(self.id);
        proof {
            old(rt).lemma_extended_keeps(*rt);
        }
    }

    /// Marks this effect disposed: it is skipped whenever it is due to run.
    pub fn dispose<T, B: Task<T>>(&self, rt: &mut Runtime<T, B>)
        requires
            old(rt).wf(),
            old(rt).has_effect(*self),
        ensures
            final(rt).wf(),
            old(rt).extended_by(*final(rt)),
            final(rt).has_effect(*self),
            final(rt).disposed(*self),
            old(rt).keeps_signals(*final(rt)),
            final(rt).keeps_signals(*old(rt)),
            final(rt).pending() == old(rt).pending(),
            final(rt).observer_stack() == old(rt).observer_stack(),
            final(rt).batching() == old(rt).batching(),
            forall|o: Effect| o != *self && old(rt).has_effect(o) ==> final(rt).disposed(o) == old(rt).disposed(o),
    {
        rt.nodes[self.id] = Node::Effect { disposed: true };
        assert forall|i: int| 0 <= i < rt.nodes.len() implies #[trigger] rt.nodes[i].wf(rt.nodes.len() as nat) by {
            assert(old(rt).nodes[i].wf(rt.nodes.len() as nat));
        }
        assert forall|o: Effect| o != *self && old(rt).has_effect(o) implies final(rt).disposed(o) == old(rt).disposed(o) by {
            assert(o.id != self.id);
        }
    }
}


impl Memo {
    /// Registers `compute` as a memo. It starts dirty and computes nothing
    /// until it is read.
    pub fn new<T, B: Task<T>>(rt: &mut Runtime<T, B>, compute: B) -> (m: Memo)
        requires
            old(rt).wf(),
        ensures
            final(rt).wf(),
            old(rt).extended_by(*final(rt)),
            final(rt).has_memo(m),
            m.observer_id() == old(rt).observer_count(),
            final(rt).observer_count() == old(rt).observer_count() + 1,
            final(rt).dirty(m),
            final(rt).cached(m) == None::<T>,
            final(rt).memo_subscribers(m) == Seq::<usize>::empty(),
            old(rt).keeps_signals(*final(rt)),
            final(rt).keeps_signals(*old(rt)),
            final(rt).observer_stack() == old(rt).observer_stack(),
            final(rt).pending() == old(rt).pending(),
            final(rt).batching() == old(rt).batching(),
            final(rt).body(m.observer_id()) == Some(compute),
            forall|j: usize| j < old(rt).body_count() ==> #[trigger] final(rt).body(j) == old(rt).body(j),
    {
        let node = Node::Memo { dirty: true, value: None, subscribers: Vec::new() };
        assert(node.wf(rt.nodes.len() as nat + 1)) by {
            assert(ids_below(Seq::<usize>::empty(), rt.nodes.len() as nat + 1));
        }
        let id = rt.add_node(node, compute);
        Memo { id }
    }

    /// Subscribes the current observer, if any, to memo `id`.
    fn track<T, B: Task<T>>(&self, rt: &mut Runtime<T, B>)
        requires
            old(rt).wf(),
            old(rt).has_memo(*self),
        ensures
            final(rt).wf(),
            final(rt).has_memo(*self),
            final(rt).dirty(*self) == old(rt).dirty(*self),
            final(rt).cached(*self) == old(rt).cached(*self),
            final(rt).memo_subscribers(*self) == after_read(old(rt).memo_subscribers(*self), old(rt).observer_stack()),
            old(rt).only_node_changed(*final(rt), self.id),
            old(rt).extended_by(*final(rt)),
    {
        let n = rt.stack.len();
        if n > 0 {
            let o = rt.stack[n - 1];
            assert(old(rt).nodes[self.id as int].wf(rt.nodes.len() as nat));
            let mut node = Node::Effect { disposed: false };
            std::mem::swap(&mut rt.nodes[self.id], &mut node);
            match node {
                Node::Memo { dirty, value, mut subscribers } => {
                    let ghost before = subscribers@;
                    subscribe(&mut subscribers, o);
                    assert(forall|i: int| 0 <= i < before.len() ==> before.push(o)[i] == before[i]);
                    rt.nodes[self.id] = Node::Memo { dirty, value, subscribers };
                },
                Node::Effect { .. } => {},
            }
            assert forall|i: int| 0 <= i < rt.nodes.len() implies #[trigger] rt.nodes[i].wf(rt.nodes.len() as nat) by {
                assert(old(rt).nodes[i].wf(rt.nodes.len() as nat));
            }
        }
    }

    /// Stores `value` as the memo's result and marks it clean.
    fn store<T, B: Task<T>>(&self, rt: &mut Runtime<T, B>, value: Option<T>)
        requires
            old(rt).wf(),
            old(rt).has_memo(*self),
        ensures
            final(rt).wf(),
            final(rt).has_memo(*self),
            !final(rt).dirty(*self),
            final(rt).cached(*self) == value,
            final(rt).memo_subscribers(*self) == old(rt).memo_subscribers(*self),
            old(rt).only_node_changed(*final(rt), self.id),
            old(rt).extended_by(*final(rt)),
            old(rt).settled(*final(rt), self.id, old(rt).observer_stack(), None, value),
    {
        assert(old(rt).nodes[self.id as int].wf(rt.nodes.len() as nat));
        let mut node = Node::Effect { disposed: false };
        std::mem::swap(&mut rt.nodes[self.id], &mut node);
        match node {
            Node::Memo { dirty: _, value: _, subscribers } => {
                rt.nodes[self.id] = Node::Memo { dirty: false, value, subscribers };
                assert(rt.nodes@ =~= old(rt).nodes@.update(self.id as int, rt.nodes[self.id as int]));
            },
            Node::Effect { .. } => {},
        }
        assert forall|i: int| 0 <= i < rt.nodes.len() implies #[trigger] rt.nodes[i].wf(rt.nodes.len() as nat) by {
            assert(old(rt).nodes[i].wf(rt.nodes.len() as nat));
        }
    }

    /// The memo's value. The current observer, if any, becomes a
    /// subscriber; a dirty memo first recomputes with itself as the current
    /// observer. Fails when the computation produced no value.
    pub fn get<T: Clone, B: Task<T>>(&self, rt: &mut Runtime<T, B>) -> (r: Result<T, ReactiveError>)
        requires
            old(rt).wf(),
            old(rt).has_memo(*self),
        ensures
            final(rt).wf(),
            old(rt).extended_by(*final(rt)),
            final(rt).has_memo(*self),
            !final(rt).dirty(*self),
            final(rt).observer_stack() == old(rt).observer_stack(),
            match r {
                Ok(v) => final(rt).cached(*self) is Some && cloned(final(rt).cached(*self)->0, v),
                Err(e) => final(rt).cached(*self) is None && e == ReactiveError::MemoValueMissing,
            },
            !old(rt).dirty(*self) ==> {
                &&& final(rt).cached(*self) == old(rt).cached(*self)
                &&& final(rt).memo_subscribers(*self) == after_read(old(rt).memo_subscribers(*self), old(rt).observer_stack())
                &&& old(rt).keeps_signals(*final(rt))
                &&& final(rt).keeps_signals(*old(rt))
                &&& final(rt).pending() == old(rt).pending()
                &&& forall|j: usize| #[trigger] final(rt).body(j) == old(rt).body(j)
            },
            old(rt).dirty(*self) ==> exists|t: Runtime<T, B>|
                #[trigger] old(rt).memo_tracked(t, *self) && t.recomputed(*final(rt), self.observer_id()),
    {
        self.track(rt);
        let ghost tracked_rt = *rt;
        assert(old(rt).memo_tracked(tracked_rt, *self));
        if rt.nodes[self.id].is_dirty_memo() {
            let saved = rt.stack.clone();
            assert(saved@ == old(rt).stack@);
            rt.stack.push(self.id);
            let mut body: Option<B> = None;
            std::mem::swap(&mut rt.bodies[self.id], &mut body);
            let ghost before_run = *rt;
            assert(tracked_rt.entered(before_run, self.id));
            let ghost mut ran_to = before_run;
            let ghost mut next_body: Option<B> = None;
            let out = match body {
                Some(mut b) => {
                    let ghost b0 = b;
                    let v = b.run(rt);
                    proof {
                        ran_to = *rt;
                        next_body = Some(b);
                        assert(b0.ran(before_run, ran_to, b, v));
                        assert(tracked_rt.body(self.id) == Some(b0));
                    }
                    rt.bodies[self.id] = Some(b);
                    v
                },
                None => {
                    proof {
                        assert(tracked_rt.body(self.id) == None::<B>);
                    }
                    None
                },
            };
            rt.stack = saved;
            let ghost after_run = *rt;
            proof {
                assert(tracked_rt.extended_by(before_run));
                assert(before_run.extended_by(after_run));
                Runtime::<T, B>::lemma_extended_trans(tracked_rt, before_run, after_run);
                Runtime::<T, B>::lemma_extended_trans(*old(rt), tracked_rt, after_run);
                assert(after_run.nodes[self.id as int].is_memo() == old(rt).nodes[self.id as int].is_memo());
            }
            self.store(rt, out);
            proof {
                Runtime::<T, B>::lemma_extended_trans(*old(rt), after_run, *rt);
                match next_body {
                    Some(n) => {
                        assert(ran_to.settled(*rt, self.id, tracked_rt.stack@, Some(n), out));
                    },
                    None => {
                        assert(after_run.bodies@ =~= tracked_rt.bodies@);
                        assert(tracked_rt.settled(*rt, self.id, tracked_rt.stack@, None, out));
                    },
                }
                assert(tracked_rt.recomputed(*rt, self.id));
            }
        }
        match &rt.nodes[self.id] {
            Node::Memo { value: Some(v), .. } => Ok(v.clone()),
            _ => Err(ReactiveError::MemoValueMissing),
        }
    }
}

impl<T> Node<T> {
    spec fn is_dirty(&self) -> bool {
        match self {
            Node::Memo { dirty, .. } => *dirty,
            Node::Effect { .. } => false,
        }
    }

    fn is_dirty_memo(&self) -> (r: bool)
        ensures
            r == self.is_dirty(),
    {
        match self {
            Node::Memo { dirty, .. } => *dirty,
            Node::Effect { .. } => false,
        }
    }
}


/// Runs `block` with batching on, so that writes inside it only queue their
/// subscribers, then restores the previous batching level. When no outer
/// batch is open, everything pending then runs, once. Batches nest: only the
/// outermost one runs what is pending.
pub fn batch<T, B: Task<T>>(rt: &mut Runtime<T, B>, block: B) -> (r: Option<T>)
    requires
        old(rt).wf(),
    ensures
        final(rt).wf(),
        old(rt).extended_by(*final(rt)),
        final(rt).observer_stack() == old(rt).observer_stack(),
        !old(rt).batching() ==> final(rt).pending().len() == 0,
        exists|raised: Runtime<T, B>, after: Runtime<T, B>, next: B, lowered: Runtime<T, B>|
            #![trigger block.ran(raised, after, next, r), after.restored(lowered, *old(rt))]
            old(rt).raised(raised) && block.ran(raised, after, next, r) && after.restored(lowered, *old(rt)) && (
            old(rt).batching() ==> lowered.same_as(*final(rt))) && (!old(rt).batching() ==> lowered.flushed(
                *final(rt),
            )),
{
    let ghost block0 = block;
    let mut block = block;
    let depth = rt.batch_depth;
    rt.batch_depth = if depth < usize::MAX {
        depth + 1
    } else {
        depth
    };
    let saved = rt.stack.clone();
    assert(saved@ == old(rt).stack@);
    let ghost before_run = *rt;
    assert(old(rt).raised(before_run));
    let r = block.run(rt);
    let ghost ran_to = *rt;
    assert(block0.ran(before_run, ran_to, block, r));
    rt.stack = saved;
    rt.batch_depth = depth;
    let ghost after_run = *rt;
    assert(ran_to.restored(after_run, *old(rt)));
    proof {
        Runtime::<T, B>::lemma_extended_trans(*old(rt), before_run, after_run);
    }
    if depth == 0 {
        rt.flush_effects();
        proof {
            Runtime::<T, B>::lemma_extended_trans(*old(rt), after_run, *rt);
        }
    }
    r
}

/// Runs `block` with no current observer, so that its reads subscribe
/// nothing, then restores the observer stack.
pub fn untracked<T, B: Task<T>>(rt: &mut Runtime<T, B>, block: B) -> (r: Option<T>)
    requires
        old(rt).wf(),
    ensures
        final(rt).wf(),
        old(rt).extended_by(*final(rt)),
        final(rt).observer_stack() == old(rt).observer_stack(),
        exists|emptied: Runtime<T, B>, after: Runtime<T, B>, next: B|
            #![trigger block.ran(emptied, after, next, r)]
            old(rt).emptied(emptied) && block.ran(emptied, after, next, r) && after.restacked(*final(rt), *old(rt)),
{
    let ghost block0 = block;
    let mut block = block;
    let saved = rt.stack.clone();
    assert(saved@ == old(rt).stack@);
    rt.stack = Vec::new();
    let ghost emptied = *rt;
    assert(old(rt).emptied(emptied));
    let r = block.run(rt);
    let ghost after = *rt;
    assert(block0.ran(emptied, after, block, r));
    rt.stack = saved;
    assert(after.restacked(*rt, *old(rt)));
    r
}

/// A memo over `compute`: another name for [`Memo::new`].
pub fn derived<T, B: Task<T>>(rt: &mut Runtime<T, B>, compute: B) -> (m: Memo)
    requires
        old(rt).wf(),
    ensures
        final(rt).wf(),
        old(rt).extended_by(*final(rt)),
        final(rt).has_memo(m),
        m.observer_id() == old(rt).observer_count(),
        final(rt).dirty(m),
        final(rt).cached(m) == None::<T>,
        final(rt).memo_subscribers(m) == Seq::<usize>::empty(),
        old(rt).keeps_signals(*final(rt)),
        final(rt).keeps_signals(*old(rt)),
        final(rt).observer_stack() == old(rt).observer_stack(),
        final(rt).pending() == old(rt).pending(),
        final(rt).body(m.observer_id()) == Some(compute),
{
    Memo::new(rt, compute)
}

/// A group of effects that are disposed together. Effects join it through
/// [`Scope::add_effect`].
pub struct Scope {
    effects: Vec<Effect>,
}

impl Scope {
    /// The effects of this scope, in the order they were added.
    pub closed spec fn effects(&self) -> Seq<Effect> {
        self.effects@
    }

    /// An empty scope.
    pub fn new() -> (s: Scope)
        ensures
            s.effects() == Seq::<Effect>::empty(),
    {
        Scope { effects: Vec::new() }
    }

    /// Runs `block`. Effects it creates are not captured: they join the
    /// scope only through [`Scope::add_effect`].
    pub fn run<T, B: Task<T>>(&self, rt: &mut Runtime<T, B>, block: B) -> (r: Option<T>)
        requires
            old(rt).wf(),
        ensures
            final(rt).wf(),
            old(rt).extended_by(*final(rt)),
            exists|next: B| #[trigger] block.ran(*old(rt), *final(rt), next, r),
    {
        let ghost block0 = block;
        let mut block = block;
        let r = block.run(rt);
        assert(block0.ran(*old(rt), *rt, block, r));
        r
    }

    /// Adds `effect` to the scope.
    pub fn add_effect(&mut self, effect: Effect)
        ensures
            final(self).effects() == old(self).effects().push(effect),
    {
        self.effects.push(effect);
    }

    /// Disposes every effect of the scope.
    pub fn dispose<T, B: Task<T>>(&self, rt: &mut Runtime<T, B>)
        requires
            old(rt).wf(),
            forall|i: int| 0 <= i < self.effects().len() ==> old(rt).has_effect(#[trigger] self.effects()[i]),
        ensures
            final(rt).wf(),
            old(rt).extended_by(*final(rt)),
            forall|i: int| 0 <= i < self.effects().len() ==> final(rt).disposed(#[trigger] self.effects()[i]),
            forall|e: Effect| old(rt).has_effect(e) && !self.effects().contains(e) ==> #[trigger] final(rt).disposed(e) == old(rt).disposed(e),
            old(rt).keeps_signals(*final(rt)),
            final(rt).keeps_signals(*old(rt)),
            final(rt).pending() == old(rt).pending(),
            final(rt).observer_stack() == old(rt).observer_stack(),
    {
        let mut i: usize = 0;
        while i < self.effects.len()
            invariant
                i <= self.effects.len(),
                rt.wf(),
                old(rt).extended_by(*rt),
                forall|j: int| 0 <= j < self.effects().len() ==> rt.has_effect(#[trigger] self.effects()[j]),
                forall|j: int| 0 <= j < i ==> rt.disposed(#[trigger] self.effects()[j]),
                forall|e: Effect| old(rt).has_effect(e) && !self.effects().contains(e) ==> #[trigger] rt.disposed(e) == old(rt).disposed(e),
                old(rt).keeps_signals(*rt),
                rt.keeps_signals(*old(rt)),
                rt.pending() == old(rt).pending(),
                rt.observer_stack() == old(rt).observer_stack(),
            decreases self.effects.len() - i,
        {
            let e = self.effects[i];
            assert(self.effects()[i as int] == e);
            let ghost before = *rt;
            e.dispose(rt);
            proof {
                Runtime::<T, B>::lemma_extended_trans(*old(rt), before, *rt);
                assert forall|j: int| 0 <= j < self.effects().len() implies rt.has_effect(#[trigger] self.effects()[j]) by {
                    assert(before.has_effect(self.effects()[j]));
                    assert(before.nodes[self.effects()[j].id as int].is_memo() == rt.nodes[self.effects()[j].id as int].is_memo());
                }
                assert forall|j: int| 0 <= j < i + 1 implies rt.disposed(#[trigger] self.effects()[j]) by {
                    if self.effects()[j] != e {
                        assert(before.disposed(self.effects()[j]));
                    }
                }
                assert forall|o: Effect| old(rt).has_effect(o) && !self.effects().contains(o) implies #[trigger] rt.disposed(o) == old(rt).disposed(o) by {
                    assert(o != e);
                    old(rt).lemma_extended_keeps(before);
                    assert(before.has_effect(o));
                    assert(before.disposed(o) == old(rt).disposed(o));
                }
            }
            i = i + 1;
        }
    }
}


impl<T, B> Runtime<T, B> {
    /// Every runtime extends itself.
    pub proof fn lemma_extended_refl(&self)
        ensures
            self.extended_by(*self),
    {
    }

    /// Handles made by a runtime stay valid in every extension of it.
    pub proof fn lemma_extended_keeps(&self, other: Self)
        requires
            self.extended_by(other),
        ensures
            forall|s: Signal| self.has_signal(s) ==> #[trigger] other.has_signal(s),
            forall|m: Memo| self.has_memo(m) ==> #[trigger] other.has_memo(m),
            forall|e: Effect| self.has_effect(e) ==> #[trigger] other.has_effect(e),
            forall|e: Effect| self.has_effect(e) && self.disposed(e) ==> #[trigger] other.disposed(e),
    {
        assert forall|e: Effect| self.has_effect(e) && self.disposed(e) implies #[trigger] other.disposed(e) by {
            assert(self.nodes[e.id as int].is_disposed_effect());
            assert(other.nodes[e.id as int].is_disposed_effect());
        }
        assert forall|m: Memo| self.has_memo(m) implies #[trigger] other.has_memo(m) by {
            assert(other.nodes[m.id as int].is_memo() == self.nodes[m.id as int].is_memo());
        }
        assert forall|e: Effect| self.has_effect(e) implies #[trigger] other.has_effect(e) by {
            assert(other.nodes[e.id as int].is_memo() == self.nodes[e.id as int].is_memo());
        }
    }
}


impl<T, B> Runtime<T, B> {
    /// What [`Runtime::observers_kept`] says in terms of the runtime's views.
    pub proof fn lemma_observers_kept(&self, other: Self)
        requires
            self.observers_kept(other),
        ensures
            other.pending() == self.pending(),
            other.observer_stack() == self.observer_stack(),
            other.batching() == self.batching(),
            other.observer_count() == self.observer_count(),
            forall|e: Effect| #[trigger] other.has_effect(e) == self.has_effect(e) && other.disposed(e) == self.disposed(e),
            forall|m: Memo|
                #[trigger] other.has_memo(m) == self.has_memo(m) && other.dirty(m) == self.dirty(m) && other.cached(m)
                    == self.cached(m) && other.memo_subscribers(m) == self.memo_subscribers(m),
    {
    }

    /// What [`Runtime::keeps_signals`] says in terms of the runtime's views.
    pub proof fn lemma_keeps_signals(&self, other: Self)
        requires
            self.keeps_signals(other),
        ensures
            forall|s: Signal|
                self.has_signal(s) ==> #[trigger] other.has_signal(s) && other.value(s) == self.value(s)
                    && other.subscribers(s) == self.subscribers(s),
    {
        assert forall|s: Signal| self.has_signal(s) implies #[trigger] other.has_signal(s) && other.value(s) == self.value(s)
            && other.subscribers(s) == self.subscribers(s) by {
            assert(other.cells[s.id as int] == self.cells[s.id as int]);
        }
    }

    /// What [`Runtime::other_signals_kept`] says in terms of the runtime's
    /// views.
    pub proof fn lemma_other_signals_kept(&self, other: Self, s: Signal)
        requires
            self.other_signals_kept(other, s),
        ensures
            other.signal_count() == self.signal_count(),
            forall|t: Signal| self.has_signal(s) ==> #[trigger] other.has_signal(t) == self.has_signal(t),
            forall|t: Signal|
                self.has_signal(t) && t != s ==> #[trigger] other.value(t) == self.value(t) && other.subscribers(t)
                    == self.subscribers(t),
    {
        assert forall|t: Signal| self.has_signal(t) && t != s implies #[trigger] other.value(t) == self.value(t)
            && other.subscribers(t) == self.subscribers(t) by {
            assert(t.id != s.id);
            assert(other.cells[t.id as int] == self.cells[t.id as int]);
        }
    }

    /// What [`Runtime::wrote`] says in terms of the runtime's views.
    pub proof fn lemma_wrote(&self, other: Self, s: Signal, v: T)
        requires
            self.has_signal(s),
            self.wrote(other, s, v),
        ensures
            other.has_signal(s),
            other.value(s) == v,
            other.subscribers(s) == self.subscribers(s),
            other.pending() == enqueued_all(self.pending(), self.subscribers(s)),
            other.observer_stack() == self.observer_stack(),
            other.batching() == self.batching(),
            other.signal_count() == self.signal_count(),
            forall|t: Signal|
                self.has_signal(t) && t != s ==> #[trigger] other.value(t) == self.value(t) && other.subscribers(t)
                    == self.subscribers(t),
            forall|e: Effect| #[trigger] other.has_effect(e) == self.has_effect(e) && other.disposed(e) == self.disposed(e),
            forall|m: Memo|
                #[trigger] other.has_memo(m) == self.has_memo(m) && other.dirty(m) == self.dirty(m) && other.cached(m)
                    == self.cached(m) && other.memo_subscribers(m) == self.memo_subscribers(m),
    {
        self.lemma_other_signals_kept(other, s);
    }

    /// What [`Runtime::same_as`] says in terms of the runtime's views.
    pub proof fn lemma_same_as(&self, other: Self)
        requires
            self.same_as(other),
        ensures
            other.pending() == self.pending(),
            other.observer_stack() == self.observer_stack(),
            other.batching() == self.batching(),
            other.signal_count() == self.signal_count(),
            other.observer_count() == self.observer_count(),
            forall|s: Signal| #[trigger] other.has_signal(s) == self.has_signal(s),
            forall|s: Signal| self.has_signal(s) ==> #[trigger] other.value(s) == self.value(s) && other.subscribers(s) == self.subscribers(s),
            forall|e: Effect| #[trigger] other.has_effect(e) == self.has_effect(e) && other.disposed(e) == self.disposed(e),
            forall|m: Memo|
                #[trigger] other.has_memo(m) == self.has_memo(m) && other.dirty(m) == self.dirty(m) && other.cached(m)
                    == self.cached(m) && other.memo_subscribers(m) == self.memo_subscribers(m),
    {
    }
}

impl<T, B> Runtime<T, B> {
    /// `other` has the same signals and observers as this runtime, in the
    /// same states.
    pub open spec fn same_graph(&self, other: Self) -> bool {
        &&& other.signal_count() == self.signal_count()
        &&& other.observer_count() == self.observer_count()
        &&& forall|s: Signal|
            #[trigger] other.has_signal(s) == self.has_signal(s) && (self.has_signal(s) ==> other.value(s) == self.value(s)
                && other.subscribers(s) == self.subscribers(s))
        &&& forall|e: Effect| #[trigger] other.has_effect(e) == self.has_effect(e) && other.disposed(e) == self.disposed(e)
        &&& forall|m: Memo|
            #[trigger] other.has_memo(m) == self.has_memo(m) && other.dirty(m) == self.dirty(m) && other.cached(m)
                == self.cached(m) && other.memo_subscribers(m) == self.memo_subscribers(m)
    }

    /// Which observers the ids of the step relations name.
    pub proof fn lemma_ids(&self)
        ensures
            forall|m: Memo| self.has_memo(m) ==> #[trigger] self.is_memo_id(m.observer_id()),
            forall|e: Effect|
                self.has_effect(e) ==> !#[trigger] self.is_memo_id(e.observer_id()) && self.is_disposed_id(e.observer_id())
                    == self.disposed(e),
    {
    }

    /// What [`Runtime::entered`] says in terms of the runtime's views.
    pub proof fn lemma_entered(&self, other: Self, id: usize)
        requires
            self.entered(other, id),
        ensures
            self.same_graph(other),
            other.observer_stack() == self.observer_stack().push(id),
            other.pending() == self.pending(),
            other.batching() == self.batching(),
            other.body(id) == None::<B>,
            forall|j: usize| j != id && j < self.body_count() ==> #[trigger] other.body(j) == self.body(j),
    {
    }

    /// What [`Runtime::left`] says in terms of the runtime's views.
    pub proof fn lemma_left(&self, other: Self, id: usize, stack: Seq<usize>, next: B)
        requires
            self.left(other, id, stack, next),
        ensures
            self.same_graph(other),
            other.observer_stack() == stack,
            other.pending() == self.pending(),
            other.batching() == self.batching(),
            other.body(id) == Some(next),
            forall|j: usize| j != id && j < self.body_count() ==> #[trigger] other.body(j) == self.body(j),
    {
    }

    /// What [`Runtime::popped`] says in terms of the runtime's views.
    pub proof fn lemma_popped(&self, other: Self)
        requires
            self.popped(other),
        ensures
            self.same_graph(other),
            other.pending() == self.pending().drop_last(),
            other.observer_stack() == self.observer_stack(),
            other.batching() == self.batching(),
            forall|j: usize| #[trigger] other.body(j) == self.body(j),
    {
    }

    /// What [`Runtime::cleared`] says in terms of the runtime's views.
    pub proof fn lemma_cleared(&self, other: Self)
        requires
            self.cleared(other),
        ensures
            self.same_graph(other),
            other.pending() == Seq::<usize>::empty(),
            other.observer_stack() == self.observer_stack(),
            other.batching() == self.batching(),
            forall|j: usize| #[trigger] other.body(j) == self.body(j),
    {
    }

    /// What [`Runtime::queued`] says in terms of the runtime's views.
    pub proof fn lemma_queued(&self, other: Self, s: Signal)
        requires
            self.queued(other, s),
        ensures
            self.same_graph(other),
            other.pending() == enqueued_all(self.pending(), self.subscribers(s)),
            other.observer_stack() == self.observer_stack(),
            other.batching() == self.batching(),
            forall|j: usize| #[trigger] other.body(j) == self.body(j),
    {
    }

    /// What [`Runtime::raised`] says in terms of the runtime's views.
    pub proof fn lemma_raised(&self, other: Self)
        requires
            self.raised(other),
        ensures
            self.same_graph(other),
            other.batching(),
            other.pending() == self.pending(),
            other.observer_stack() == self.observer_stack(),
            forall|j: usize| #[trigger] other.body(j) == self.body(j),
    {
    }

    /// What [`Runtime::emptied`] says in terms of the runtime's views.
    pub proof fn lemma_emptied(&self, other: Self)
        requires
            self.emptied(other),
        ensures
            self.same_graph(other),
            other.observer_stack() == Seq::<usize>::empty(),
            other.pending() == self.pending(),
            other.batching() == self.batching(),
            forall|j: usize| #[trigger] other.body(j) == self.body(j),
    {
    }

    /// What [`Runtime::restored`] says in terms of the runtime's views.
    pub proof fn lemma_restored(&self, other: Self, base: Self)
        requires
            self.restored(other, base),
        ensures
            self.same_graph(other),
            other.observer_stack() == base.observer_stack(),
            other.batching() == base.batching(),
            other.pending() == self.pending(),
            forall|j: usize| #[trigger] other.body(j) == self.body(j),
    {
    }

    /// What [`Runtime::restacked`] says in terms of the runtime's views.
    pub proof fn lemma_restacked(&self, other: Self, base: Self)
        requires
            self.restacked(other, base),
        ensures
            self.same_graph(other),
            other.observer_stack() == base.observer_stack(),
            other.batching() == self.batching(),
            other.pending() == self.pending(),
            forall|j: usize| #[trigger] other.body(j) == self.body(j),
    {
    }

    /// What [`Runtime::added_effect`] says in terms of the runtime's views.
    pub proof fn lemma_added_effect(&self, other: Self, id: usize, body: B)
        requires
            self.wf(),
            self.added_effect(other, id, body),
        ensures
            id == self.observer_count(),
            other.observer_count() == self.observer_count() + 1,
            !other.is_memo_id(id),
            !other.is_disposed_id(id),
            other.body(id) == Some(body),
            other.signal_count() == self.signal_count(),
            forall|s: Signal|
                #[trigger] other.has_signal(s) == self.has_signal(s) && (self.has_signal(s) ==> other.value(s)
                    == self.value(s) && other.subscribers(s) == self.subscribers(s)),
            forall|e: Effect| self.has_effect(e) ==> #[trigger] other.has_effect(e) && other.disposed(e) == self.disposed(e),
            forall|m: Memo|
                self.has_memo(m) ==> #[trigger] other.has_memo(m) && other.dirty(m) == self.dirty(m) && other.cached(m)
                    == self.cached(m) && other.memo_subscribers(m) == self.memo_subscribers(m),
            forall|j: usize| j < id ==> #[trigger] other.body(j) == self.body(j),
            other.observer_stack() == self.observer_stack(),
            other.pending() == self.pending(),
            other.batching() == self.batching(),
    {
        assert forall|e: Effect| self.has_effect(e) implies #[trigger] other.has_effect(e) && other.disposed(e) == self.disposed(e) by {
            assert(other.nodes@[e.id as int] == self.nodes@[e.id as int]);
        }
        assert forall|m: Memo| self.has_memo(m) implies #[trigger] other.has_memo(m) && other.dirty(m) == self.dirty(m)
            && other.cached(m) == self.cached(m) && other.memo_subscribers(m) == self.memo_subscribers(m) by {
            assert(other.nodes@[m.id as int] == self.nodes@[m.id as int]);
        }
    }

    /// What running a memo does, in terms of the runtime's views: the memo
    /// is marked dirty, its subscribers are queued, and nothing runs.
    pub proof fn lemma_memo_invalidated(&self, other: Self, m: Memo)
        requires
            self.memo_invalidated(other, m.observer_id()),
            self.has_memo(m),
        ensures
            other.has_memo(m),
            other.dirty(m),
            other.cached(m) == self.cached(m),
            other.memo_subscribers(m) == self.memo_subscribers(m),
            other.pending() == enqueued_all(self.pending(), self.memo_subscribers(m)),
            other.observer_stack() == self.observer_stack(),
            other.batching() == self.batching(),
            other.signal_count() == self.signal_count(),
            forall|s: Signal|
                #[trigger] other.has_signal(s) == self.has_signal(s) && (self.has_signal(s) ==> other.value(s)
                    == self.value(s) && other.subscribers(s) == self.subscribers(s)),
            forall|j: usize| #[trigger] other.body(j) == self.body(j),
    {
    }

    /// What [`Runtime::settled`] says of memo `m` in terms of the runtime's
    /// views.
    pub proof fn lemma_settled(&self, other: Self, m: Memo, stack: Seq<usize>, body: Option<B>, out: Option<T>)
        requires
            self.wf(),
            self.settled(other, m.observer_id(), stack, body, out),
            self.has_memo(m),
        ensures
            other.has_memo(m),
            !other.dirty(m),
            other.cached(m) == out,
            other.memo_subscribers(m) == self.memo_subscribers(m),
            other.observer_stack() == stack,
            other.pending() == self.pending(),
            other.batching() == self.batching(),
            other.signal_count() == self.signal_count(),
            forall|s: Signal|
                #[trigger] other.has_signal(s) == self.has_signal(s) && (self.has_signal(s) ==> other.value(s)
                    == self.value(s) && other.subscribers(s) == self.subscribers(s)),
            forall|e: Effect| #[trigger] other.has_effect(e) == self.has_effect(e) && (self.has_effect(e) ==> other.disposed(e) == self.disposed(e)),
            body is Some ==> other.body(m.observer_id()) == body,
    {
        assert forall|e: Effect| #[trigger] other.has_effect(e) == self.has_effect(e) && (self.has_effect(e) ==> other.disposed(e) == self.disposed(e)) by {
            if e.id < self.nodes.len() && e.id != m.id {
                assert(other.nodes@[e.id as int] == self.nodes@[e.id as int]);
            }
        }
    }
}

/// A signal made with `v0` holds `v0` and has no subscriber, so that with
/// nothing pending a write runs no observer; once written with `v1` that
/// way, it holds `v1`.
pub proof fn law_signal_holds_last_write<T, B>(
    made: Runtime<T, B>,
    written: Runtime<T, B>,
    s: Signal,
    v0: T,
    v1: T,
)
    requires
        made.has_signal(s),
        made.value(s) == v0,
        made.subscribers(s) == Seq::<usize>::empty(),
        made.wrote(written, s, v1),
    ensures
        made.value(s) == v0,
        made.subscribers(s).len() == 0,
        written.has_signal(s),
        written.value(s) == v1,
        written.subscribers(s) == made.subscribers(s),
        written.pending() == made.pending(),
{
    assert(enqueued_all(made.pending@, made.cells[s.id as int].subscribers@) == made.pending@);
}

} // verus!
