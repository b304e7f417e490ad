//! The event handler registry: maps handler ids, which rendered elements
//! carry, to the callbacks to run when those elements are clicked.
use vstd::prelude::*;
use crate::text::{escaped, html_escape};

verus! {

/// Escapes `&`, `<`, `>` and `"` for HTML; used for dynamic content.
pub fn html_escape_string(s: &str) -> (r: String)
    ensures
        r@ == escaped(s@),
{
    html_escape(s)
}

/// The id of a registered handler.
#[derive(Clone, Copy, PartialEq, Eq, Structural, Hash, Debug)]
pub struct EventHandlerId(pub usize);

impl EventHandlerId {
    /// The id in decimal, as elements carry it.
    pub fn to_text(&self) -> (r: String)
        ensures
            r@ == crate::text::decimal(self.0 as nat),
    {
        crate::text::decimal_text(self.0)
    }
}

/// Callbacks by handler id, and the counter that hands out ids.
pub struct EventRegistry<H> {
    handlers: Vec<(EventHandlerId, H)>,
    next_id: usize,
}

impl<H: Fn()> EventRegistry<H> {
    /// Ids are unique and every callback can be called.
    pub closed spec fn wf(&self) -> bool {
        &&& forall|i: int, j: int|
            0 <= i < j < self.handlers.len() ==> self.handlers[i].0 != self.handlers[j].0
        &&& forall|i: int| 0 <= i < self.handlers.len() ==> (#[trigger] self.handlers[i]).1.requires(())
    }
}

impl<H> EventRegistry<H> {
    /// The registered ids, in the order they were registered.
    pub closed spec fn ids(&self) -> Seq<usize> {
        Seq::new(self.handlers.len() as nat, |i: int| self.handlers[i].0.0)
    }

    /// The id the next registration gets.
    pub closed spec fn next(&self) -> nat {
        self.next_id as nat
    }

    /// The callback registered at position `i`.
    pub closed spec fn handler_at(&self, i: int) -> H {
        self.handlers[i].1
    }

    /// `other` holds the same handlers as this registry.
    pub closed spec fn same_handlers(&self, other: Self) -> bool {
        other.handlers == self.handlers
    }
}

impl<H: Fn()> EventRegistry<H> {
    /// An empty registry whose first id is 0.
    pub fn new() -> (r: Self)
        ensures
            r.wf(),
            r.ids() == Seq::<usize>::empty(),
            r.next() == 0,
    {
        EventRegistry { handlers: Vec::new(), next_id: 0 }
    }
}

/// A fresh handler id: the counter's value, which then advances.
pub fn next_handler_id<H: Fn()>(reg: &mut EventRegistry<H>) -> (r: EventHandlerId)
    requires
        old(reg).next() < usize::MAX,
    ensures
        r.0 == old(reg).next(),
        final(reg).next() == old(reg).next() + 1,
        old(reg).same_handlers(*final(reg)),
        old(reg).wf() ==> final(reg).wf(),
{
    let id = reg.next_id;
    reg.next_id = id + 1;
    EventHandlerId(id)
}

/// Sets the id counter back to 0.
pub fn reset_handler_ids<H: Fn()>(reg: &mut EventRegistry<H>)
    ensures
        final(reg).next() == 0,
        old(reg).same_handlers(*final(reg)),
        old(reg).wf() ==> final(reg).wf(),
{
    reg.next_id = 0;
}

/// The position of `id` among the registered handlers, if any.
fn find<H: Fn()>(reg: &EventRegistry<H>, id: EventHandlerId) -> (r: Option<usize>)
    ensures
        match r {
            Some(i) => i < reg.handlers.len() && reg.handlers[i as int].0 == id,
            None => !reg.ids().contains(id.0),
        },
{
    let mut i: usize = 0;
    while i < reg.handlers.len()
        invariant
            i <= reg.handlers.len(),
            forall|j: int| 0 <= j < i ==> reg.handlers[j].0 != id,
        decreases reg.handlers.len() - i,
    {
        if reg.handlers[i].0 == id {
            return Some(i);
        }
        i = i + 1;
    }
    proof {
        assert forall|j: int| 0 <= j < reg.ids().len() implies reg.ids()[j] != id.0 by {
            assert(reg.handlers[j].0 != id);
        }
    }
    None
}

/// Registers `callback` under a fresh id and returns that id. A callback
/// already registered under that id, which only happens after the counter
/// was reset, is replaced.
pub fn register_handler<H: Fn()>(reg: &mut EventRegistry<H>, callback: H) -> (r: EventHandlerId)
    requires
        old(reg).wf(),
        old(reg).next() < usize::MAX,
        callback.requires(()),
    ensures
        final(reg).wf(),
        r.0 == old(reg).next(),
        final(reg).next() == old(reg).next() + 1,
        forall|i: int| 0 <= i < final(reg).ids().len() && final(reg).ids()[i] == r.0 ==> final(reg).handler_at(i) == callback,
        !old(reg).ids().contains(r.0) ==> final(reg).ids() == old(reg).ids().push(r.0),
        old(reg).ids().contains(r.0) ==> final(reg).ids() == old(reg).ids(),
        forall|i: int| 0 <= i < old(reg).ids().len() && old(reg).ids()[i] != r.0 ==> final(reg).handler_at(i) == old(reg).handler_at(i),
{
    let id = next_handler_id(reg);
    let ghost mid = *reg;
    match find(reg, id) {
        Some(i) => {
            reg.handlers.set(i, (id, callback));
            proof {
                assert(reg.ids() =~= mid.ids());
                assert(mid.ids()[i as int] == id.0);
                assert(mid.ids().contains(id.0));
                assert forall|k: int| 0 <= k < reg.ids().len() && reg.ids()[k] == id.0 implies reg.handler_at(k) == callback by {
                    if k != i {
                        assert(mid.handlers[k].0 == mid.handlers[i as int].0);
                    }
                }
            }
        },
        None => {
            reg.handlers.push((id, callback));
            proof {
                assert(reg.ids() =~= mid.ids().push(id.0));
                assert forall|a: int, b: int| 0 <= a < b < reg.handlers.len() implies reg.handlers[a].0 != reg.handlers[b].0 by {
                    if b == mid.handlers.len() {
                        assert(mid.ids()[a] != id.0);
                    }
                }
            }
        },
    }
    id
}

/// Runs the callback registered under `id`. Returns whether there was one.
pub fn dispatch_event<H: Fn()>(reg: &EventRegistry<H>, id: EventHandlerId) -> (r: bool)
    requires
        reg.wf(),
    ensures
        r == reg.ids().contains(id.0),
        r ==> exists|i: int| 0 <= i < reg.ids().len() && reg.ids()[i] == id.0 && reg.handler_at(i).ensures((), ()),
{
    match find(reg, id) {
        Some(i) => {
            assert(reg.handlers[i as int].1.requires(()));
            (reg.handlers[i].1)();
            assert(reg.ids()[i as int] == id.0);
            true
        },
        None => false,
    }
}

/// Removes every handler and sets the id counter back to 0.
pub fn clear_handlers<H: Fn()>(reg: &mut EventRegistry<H>)
    ensures
        final(reg).wf(),
        final(reg).ids() == Seq::<usize>::empty(),
        final(reg).next() == 0,
{
    reg.handlers.clear();
    reset_handler_ids(reg);
    assert(final(reg).ids() =~= Seq::<usize>::empty());
}

/// The number of registered handlers.
pub fn handler_count<H: Fn()>(reg: &EventRegistry<H>) -> (r: usize)
    ensures
        r == reg.ids().len(),
{
    reg.handlers.len()
}

} // verus!
