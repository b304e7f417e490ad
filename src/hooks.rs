//! Hooks: state that a render function keeps across passes, found again by
//! the order in which the hooks are called.
//!
//! A render pass is bracketed by [`begin_render`] and [`end_render`]. Each
//! hook call takes the next position; on the first pass it creates the slot
//! there, on later passes it finds it again, after checking that the same
//! kind of hook stands at that position.
use vstd::prelude::*;
use crate::reactive::{Memo, Runtime, Signal, Task};
use crate::text::{decimal, decimal_text};
use vstd::std_specs::cmp::PartialEqSpec;

verus! {

/// The kind of a hook slot, recorded on the first pass and checked on every
/// later one.
#[derive(Clone, Copy, PartialEq, Eq, Structural, Debug)]
pub enum HookKind {
    Signal,
    Ref,
    Effect,
    EffectCleanup,
    Memo,
    Derived,
}

/// The name of the hook that records `k`.
pub open spec fn kind_name(k: HookKind) -> Seq<char> {
    match k {
        HookKind::Signal => "use_signal"@,
        HookKind::Ref => "use_ref"@,
        HookKind::Effect => "use_effect"@,
        HookKind::EffectCleanup => "use_effect_cleanup"@,
        HookKind::Memo => "use_memo"@,
        HookKind::Derived => "use_derived"@,
    }
}

impl HookKind {
    /// The name of the hook that records this kind.
    pub fn name(&self) -> (r: &'static str)
        ensures
            r@ == kind_name(*self),
    {
        match self {
            HookKind::Signal => "use_signal",
            HookKind::Ref => "use_ref",
            HookKind::Effect => "use_effect",
            HookKind::EffectCleanup => "use_effect_cleanup",
            HookKind::Memo => "use_memo",
            HookKind::Derived => "use_derived",
        }
    }
}

/// What a slot of kind `k` stores, as the debug view names it.
pub open spec fn stored_name(k: HookKind) -> Seq<char> {
    match k {
        HookKind::Signal => "Signal"@,
        HookKind::Ref => "value"@,
        HookKind::Effect => "dependencies"@,
        HookKind::EffectCleanup => "dependencies and cleanup"@,
        HookKind::Memo => "dependencies and cached value"@,
        HookKind::Derived => "Memo"@,
    }
}

impl HookKind {
    /// What a slot of this kind stores.
    pub fn stored(&self) -> (r: &'static str)
        ensures
            r@ == stored_name(*self),
    {
        match self {
            HookKind::Signal => "Signal",
            HookKind::Ref => "value",
            HookKind::Effect => "dependencies",
            HookKind::EffectCleanup => "dependencies and cleanup",
            HookKind::Memo => "dependencies and cached value",
            HookKind::Derived => "Memo",
        }
    }
}

/// A breach of the rule that hooks are called only during a render pass,
/// in the same order and the same number on every pass.
#[derive(Clone, Copy, PartialEq, Eq, Structural, Debug)]
pub enum HookError {
    /// A hook was called while no render pass was open.
    HookCalledOutsideRender { hook: HookKind },
    /// A pass called a different number of hooks than the pass before it.
    HookCountMismatch { expected: usize, actual: usize },
    /// The hook at `index` is not of the kind recorded there.
    HookOrderMismatch { index: usize, previous: HookKind, current: HookKind },
}

/// The text that describes `e`.
pub open spec fn error_text(e: HookError) -> Seq<char> {
    match e {
        HookError::HookCalledOutsideRender { hook } =>
            "hooks error: `"@ + kind_name(hook) + "` called outside of render"@,
        HookError::HookCountMismatch { expected, actual } =>
            "hooks error: Hook count mismatch! Previous render had "@ + decimal(expected as nat)
                + " hooks, current render has "@ + decimal(actual as nat) + " hooks"@,
        HookError::HookOrderMismatch { index, previous, current } =>
            "hooks error: Hook order mismatch at index "@ + decimal(index as nat)
                + "! Previous render: `"@ + kind_name(previous) + "`, current render: `"@
                + kind_name(current) + "`"@,
    }
}

impl HookError {
    /// A message that names the hook kinds and the values compared.
    pub fn message(&self) -> (r: String)
        ensures
            r@ == error_text(*self),
    {
        match self {
            HookError::HookCalledOutsideRender { hook } => {
                let s = String::from_str("hooks error: `");
                let s = s.concat(hook.name());
                s.concat("` called outside of render")
            },
            HookError::HookCountMismatch { expected, actual } => {
                let s = String::from_str("hooks error: Hook count mismatch! Previous render had ");
                let s = s.concat(decimal_text(*expected).as_str());
                let s = s.concat(" hooks, current render has ");
                let s = s.concat(decimal_text(*actual).as_str());
                s.concat(" hooks")
            },
            HookError::HookOrderMismatch { index, previous, current } => {
                let s = String::from_str("hooks error: Hook order mismatch at index ");
                let s = s.concat(decimal_text(*index).as_str());
                let s = s.concat("! Previous render: `");
                let s = s.concat(previous.name());
                let s = s.concat("`, current render: `");
                let s = s.concat(current.name());
                s.concat("`")
            },
        }
    }
}


/// What the debug view shows of one hook slot.
#[derive(Clone, Copy, Debug)]
pub struct HookMeta {
    /// The kind of hook that created the slot.
    pub hook_type: HookKind,
    /// What the slot stores for that hook.
    pub value_type: &'static str,
}

/// What a slot holds, one variant per kind of hook.
enum Slot<T, C> {
    Signal(Signal),
    Ref(T),
    Effect { last: Option<T>, cleanup: Option<C> },
    Memo { value: T, deps: T },
    Derived(Memo),
}

struct HookEntry<T, C> {
    slot: Slot<T, C>,
    meta: HookMeta,
}

impl<T, C> Slot<T, C> {
    /// Whether this slot is the state of a hook of kind `kind`.
    spec fn fits(&self, kind: HookKind) -> bool {
        match self {
            Slot::Signal(_) => kind == HookKind::Signal,
            Slot::Ref(_) => kind == HookKind::Ref,
            Slot::Effect { .. } => kind == HookKind::Effect || kind == HookKind::EffectCleanup,
            Slot::Memo { .. } => kind == HookKind::Memo,
            Slot::Derived(_) => kind == HookKind::Derived,
        }
    }
}

/// A handle on the slot of a reference hook, made by [`use_ref`]. Writing
/// through it does not cause a render pass.
#[derive(Clone, Copy, PartialEq, Eq, Structural, Debug)]
pub struct RefHandle {
    index: usize,
}

/// The hook slots of a render function, the position of the next hook call,
/// whether a pass is open, and the number of hooks the last completed pass
/// called. It also holds the context value.
pub struct HookRegistry<T, C> {
    hooks: Vec<HookEntry<T, C>>,
    current_index: usize,
    is_rendering: bool,
    expected_count: Option<usize>,
    render_count: usize,
    context: Option<T>,
}


impl RefHandle {
    /// The position of the slot this handle names.
    pub closed spec fn position(self) -> nat {
        self.index as nat
    }
}

impl<T, C: FnOnce()> HookRegistry<T, C> {
    /// In a consistent registry the next position is at most one past the
    /// last slot.
    pub proof fn lemma_index_bound(&self)
        requires
            self.wf(),
        ensures
            self.index() <= self.hook_count(),
            self.kinds().len() == self.hook_count(),
    {
    }
}

impl<T, C> HookRegistry<T, C> {
    /// Two registries that keep the same signals and memos at the same
    /// positions fit the same runtimes.
    pub proof fn lemma_same_handles_belong<B>(&self, other: Self, rt: Runtime<T, B>)
        requires
            self.belongs_to(rt),
            other.hook_count() == self.hook_count(),
            forall|i: nat| #[trigger] other.signal_at(i) == self.signal_at(i),
            forall|i: nat| #[trigger] other.memo_at(i) == self.memo_at(i),
        ensures
            other.belongs_to(rt),
    {
        assert forall|i: int| 0 <= i < other.hooks.len() implies match #[trigger] other.hooks[i].slot {
            Slot::Signal(s) => rt.has_signal(s),
            Slot::Derived(m) => rt.has_memo(m),
            _ => true,
        } by {
            assert(other.signal_at(i as nat) == self.signal_at(i as nat));
            assert(other.memo_at(i as nat) == self.memo_at(i as nat));
            match self.hooks[i].slot {
                Slot::Signal(s) => {},
                Slot::Derived(m) => {},
                _ => {},
            }
        }
    }
}

impl<T, C: FnOnce()> HookRegistry<T, C> {
    /// Slots fit their recorded kinds, the next position is at most one past
    /// the last slot, and every stored cleanup can be called.
    pub closed spec fn wf(&self) -> bool {
        &&& self.current_index <= self.hooks.len()
        &&& forall|i: int| 0 <= i < self.hooks.len() ==> #[trigger] self.hooks[i].slot.fits(self.hooks[i].meta.hook_type)
        &&& forall|i: int| 0 <= i < self.hooks.len() ==> match #[trigger] self.hooks[i].slot {
            Slot::Effect { cleanup: Some(c), .. } => c.requires(()),
            _ => true,
        }
        &&& forall|i: int| 0 <= i < self.hooks.len() ==> (#[trigger] self.hooks[i].meta).value_type@ == stored_name(self.hooks[i].meta.hook_type)
    }
}

impl<T, C> HookRegistry<T, C> {
    /// The kinds recorded in the slots, by position.
    pub closed spec fn kinds(&self) -> Seq<HookKind> {
        Seq::new(self.hooks.len() as nat, |i: int| self.hooks[i].meta.hook_type)
    }

    /// What the debug view shows of each slot, by position.
    pub closed spec fn metas(&self) -> Seq<HookMeta> {
        Seq::new(self.hooks.len() as nat, |i: int| self.hooks[i].meta)
    }

    /// The number of slots.
    pub closed spec fn hook_count(&self) -> nat {
        self.hooks.len() as nat
    }

    /// The position the next hook call takes.
    pub closed spec fn index(&self) -> nat {
        self.current_index as nat
    }

    /// Whether a render pass is open.
    pub closed spec fn rendering(&self) -> bool {
        self.is_rendering
    }

    /// The number of hooks the last completed pass called, once one has.
    pub closed spec fn expected(&self) -> Option<usize> {
        self.expected_count
    }

    /// The number of completed passes.
    pub closed spec fn passes(&self) -> nat {
        self.render_count as nat
    }

    /// The published context value.
    pub closed spec fn context(&self) -> Option<T> {
        self.context
    }

    /// The signal kept at position `i`, if that slot is a value hook.
    pub closed spec fn signal_at(&self, i: nat) -> Option<Signal> {
        if i < self.hooks.len() {
            match self.hooks[i as int].slot {
                Slot::Signal(s) => Some(s),
                _ => None,
            }
        } else {
            None
        }
    }

    /// The memo kept at position `i`, if that slot is a derived hook.
    pub closed spec fn memo_at(&self, i: nat) -> Option<Memo> {
        if i < self.hooks.len() {
            match self.hooks[i as int].slot {
                Slot::Derived(m) => Some(m),
                _ => None,
            }
        } else {
            None
        }
    }

    /// The value kept at position `i`, if that slot is a reference hook.
    pub closed spec fn ref_at(&self, i: nat) -> Option<T> {
        if i < self.hooks.len() {
            match self.hooks[i as int].slot {
                Slot::Ref(v) => Some(v),
                _ => None,
            }
        } else {
            None
        }
    }

    /// The dependency value recorded at position `i`, if that slot is an
    /// effect hook that recorded one.
    pub closed spec fn deps_at(&self, i: nat) -> Option<T> {
        if i < self.hooks.len() {
            match self.hooks[i as int].slot {
                Slot::Effect { last, .. } => last,
                Slot::Memo { deps, .. } => Some(deps),
                _ => None,
            }
        } else {
            None
        }
    }

    /// The cleanup kept at position `i`, if that slot is an effect hook that
    /// kept one.
    pub closed spec fn cleanup_at(&self, i: nat) -> Option<C> {
        if i < self.hooks.len() {
            match self.hooks[i as int].slot {
                Slot::Effect { cleanup, .. } => cleanup,
                _ => None,
            }
        } else {
            None
        }
    }

    /// The cached value at position `i`, if that slot is a memoization hook.
    pub closed spec fn memo_value_at(&self, i: nat) -> Option<T> {
        if i < self.hooks.len() {
            match self.hooks[i as int].slot {
                Slot::Memo { value, .. } => Some(value),
                _ => None,
            }
        } else {
            None
        }
    }

    /// Whether `h` names a reference slot of this registry.
    pub closed spec fn has_ref(&self, h: RefHandle) -> bool {
        self.ref_at(h.index as nat) is Some
    }

    /// The error a hook of kind `kind` called now fails with, if any.
    pub open spec fn fault(&self, kind: HookKind) -> Option<HookError> {
        if !self.rendering() {
            Some(HookError::HookCalledOutsideRender { hook: kind })
        } else if self.index() < self.hook_count() && self.kinds()[self.index() as int] != kind {
            Some(
                HookError::HookOrderMismatch {
                    index: self.index() as usize,
                    previous: self.kinds()[self.index() as int],
                    current: kind,
                },
            )
        } else {
            None
        }
    }

    /// `other` holds the same slots and pass state as this registry; only
    /// the context value may differ.
    pub closed spec fn same_hooks(&self, other: Self) -> bool {
        &&& other.hooks == self.hooks
        &&& other.current_index == self.current_index
        &&& other.is_rendering == self.is_rendering
        &&& other.expected_count == self.expected_count
        &&& other.render_count == self.render_count
    }

    /// Whether the next hook call finds a slot made by an earlier pass.
    pub open spec fn replays(&self) -> bool {
        self.index() < self.hook_count()
    }

    /// Every signal and memo kept in the slots was made by `rt`.
    pub closed spec fn belongs_to<B>(&self, rt: Runtime<T, B>) -> bool {
        forall|i: int|
            0 <= i < self.hooks.len() ==> match #[trigger] self.hooks[i].slot {
                Slot::Signal(s) => rt.has_signal(s),
                Slot::Derived(m) => rt.has_memo(m),
                _ => true,
            }
    }

    /// `other` is this registry after a hook call that found or made its
    /// slot: the next position has advanced by one, and the slot made, if
    /// any, has kind `kind`.
    pub closed spec fn advanced(&self, other: Self, kind: HookKind) -> bool {
        &&& other.current_index == self.current_index + 1
        &&& other.is_rendering == self.is_rendering
        &&& other.expected_count == self.expected_count
        &&& other.render_count == self.render_count
        &&& other.context == self.context
        &&& if self.current_index < self.hooks.len() {
            other.hooks.len() == self.hooks.len()
        } else {
            other.hooks.len() == self.hooks.len() + 1 && other.hooks[self.hooks.len() as int].meta.hook_type == kind
        }
        &&& forall|i: int| 0 <= i < self.hooks.len() ==> #[trigger] other.hooks[i].meta == self.hooks[i].meta
        &&& forall|i: int|
            0 <= i < self.hooks.len() && i != self.current_index ==> #[trigger] other.hooks[i] == self.hooks[i]
    }
}

impl<T, C> HookRegistry<T, C> {
    /// What [`HookRegistry::advanced`] says in terms of the registry's views.
    pub proof fn lemma_advanced(&self, other: Self, kind: HookKind)
        requires
            self.advanced(other, kind),
            self.index() <= self.hook_count(),
        ensures
            other.index() == self.index() + 1,
            self.replays() ==> other.hook_count() == self.hook_count(),
            !self.replays() ==> other.hook_count() == self.hook_count() + 1,
            other.index() <= other.hook_count(),
            self.kinds().len() == self.hook_count(),
            other.kinds().len() == other.hook_count(),
            other.rendering() == self.rendering(),
            other.expected() == self.expected(),
            other.passes() == self.passes(),
            other.context() == self.context(),
            self.replays() ==> other.kinds() == self.kinds(),
            !self.replays() ==> other.kinds() == self.kinds().push(kind),
            forall|i: nat|
                i != self.index() ==> {
                    &&& #[trigger] other.signal_at(i) == self.signal_at(i)
                    &&& other.ref_at(i) == self.ref_at(i)
                    &&& other.memo_at(i) == self.memo_at(i)
                    &&& other.deps_at(i) == self.deps_at(i)
                    &&& other.cleanup_at(i) == self.cleanup_at(i)
                    &&& other.memo_value_at(i) == self.memo_value_at(i)
                },
    {
        if self.replays() {
            assert(other.kinds() =~= self.kinds());
        } else {
            assert(other.kinds() =~= self.kinds().push(kind));
        }
        assert forall|i: nat| i != self.index() implies {
            &&& #[trigger] other.signal_at(i) == self.signal_at(i)
            &&& other.ref_at(i) == self.ref_at(i)
            &&& other.memo_at(i) == self.memo_at(i)
            &&& other.deps_at(i) == self.deps_at(i)
            &&& other.cleanup_at(i) == self.cleanup_at(i)
            &&& other.memo_value_at(i) == self.memo_value_at(i)
        } by {
            if i < self.hooks.len() {
                assert(other.hooks[i as int] == self.hooks[i as int]);
            }
        }
    }

    /// `other` is in the same pass as this registry: same position, pass
    /// state and context.
    pub closed spec fn same_pass(&self, other: Self) -> bool {
        &&& other.current_index == self.current_index
        &&& other.is_rendering == self.is_rendering
        &&& other.expected_count == self.expected_count
        &&& other.render_count == self.render_count
        &&& other.context == self.context
    }

    /// `other` holds the same slots as this registry.
    pub closed spec fn same_slots(&self, other: Self) -> bool {
        other.hooks == self.hooks
    }

    /// A registry whose slots are those of one that fits `rt` fits `rt`.
    pub proof fn lemma_same_slots_belong<B>(&self, other: Self, rt: Runtime<T, B>)
        requires
            self.same_slots(other),
            self.belongs_to(rt),
        ensures
            other.belongs_to(rt),
    {
    }

    /// A registry with no slots keeps no handle, so it fits every runtime.
    pub proof fn lemma_empty_belongs<B>(&self, rt: Runtime<T, B>)
        requires
            self.hook_count() == 0,
        ensures
            self.belongs_to(rt),
    {
    }
}

impl<T, C: FnOnce()> HookRegistry<T, C> {
    /// A registry that fits a runtime fits every extension of it.
    pub proof fn lemma_belongs_after<B>(&self, rt0: Runtime<T, B>, rt1: Runtime<T, B>)
        requires
            self.belongs_to(rt0),
            rt0.extended_by(rt1),
        ensures
            self.belongs_to(rt1),
    {
        assert forall|i: int| 0 <= i < self.hooks.len() implies match #[trigger] self.hooks[i].slot {
            Slot::Signal(s) => rt1.has_signal(s),
            Slot::Derived(m) => rt1.has_memo(m),
            _ => true,
        } by {
            rt0.lemma_extended_keeps(rt1);
        }
    }

    /// An empty registry: no slots, no pass open, no pass completed.
    pub fn new() -> (r: Self)
        ensures
            r.wf(),
            r.hook_count() == 0,
            r.index() == 0,
            !r.rendering(),
            r.expected() == None::<usize>,
            r.passes() == 0,
            r.context() == None::<T>,
    {
        HookRegistry {
            hooks: Vec::new(),
            current_index: 0,
            is_rendering: false,
            expected_count: None,
            render_count: 0,
            context: None,
        }
    }

    /// Opens a pass: the next hook call takes position 0.
    fn begin_render(&mut self)
        requires
            old(self).wf(),
        ensures
            final(self).wf(),
            final(self).index() == 0,
            final(self).rendering(),
            final(self).hooks == old(self).hooks,
            final(self).expected() == old(self).expected(),
            final(self).passes() == old(self).passes(),
            final(self).context() == old(self).context(),
    {
        self.current_index = 0;
        self.is_rendering = true;
    }

    /// Closes a pass. Fails when an earlier pass completed with a different
    /// number of hook calls; otherwise records this pass's count.
    fn end_render(&mut self) -> (r: Result<(), HookError>)
        requires
            old(self).wf(),
        ensures
            final(self).wf(),
            !final(self).rendering(),
            final(self).hooks == old(self).hooks,
            final(self).context() == old(self).context(),
            match old(self).expected() {
                Some(e) if e != old(self).index() => {
                    &&& r == Err::<(), HookError>(HookError::HookCountMismatch { expected: e, actual: old(self).current_index })
                    &&& final(self).expected() == old(self).expected()
                    &&& final(self).passes() == old(self).passes()
                },
                _ => {
                    &&& r == Ok::<(), HookError>(())
                    &&& final(self).expected() == Some(old(self).current_index)
                    &&& final(self).passes() == old(self).passes() + 1 || old(self).render_count == usize::MAX
                },
            },
    {
        let index = self.current_index;
        self.is_rendering = false;
        match self.expected_count {
            Some(e) => {
                if e != index {
                    return Err(HookError::HookCountMismatch { expected: e, actual: index });
                }
            },
            None => {},
        }
        self.expected_count = Some(index);
        if self.render_count < usize::MAX {
            self.render_count = self.render_count + 1;
        }
        Ok(())
    }

    /// Takes the next position for a hook of kind `kind`. `Ok(true)`: a slot
    /// of that kind is there; `Ok(false)`: there is none yet and the caller
    /// appends it.
    fn use_hook(&mut self, kind: HookKind) -> (r: Result<bool, HookError>)
        requires
            old(self).wf(),
            old(self).hook_count() < usize::MAX,
        ensures
            match old(self).fault(kind) {
                Some(e) => r == Err::<bool, HookError>(e) && *final(self) == *old(self),
                None => {
                    &&& r == Ok::<bool, HookError>(old(self).replays())
                    &&& final(self).current_index == old(self).current_index + 1
                    &&& final(self).hooks == old(self).hooks
                    &&& final(self).is_rendering == old(self).is_rendering
                    &&& final(self).expected_count == old(self).expected_count
                    &&& final(self).render_count == old(self).render_count
                    &&& final(self).context == old(self).context
                    &&& old(self).replays() ==> final(self).wf() && old(self).hooks[old(self).current_index as int].meta.hook_type == kind
                },
            },
    {
        if !self.is_rendering {
            return Err(HookError::HookCalledOutsideRender { hook: kind });
        }
        let index = self.current_index;
        if index < self.hooks.len() {
            let previous = self.hooks[index].meta.hook_type;
            if previous != kind {
                return Err(HookError::HookOrderMismatch { index, previous, current: kind });
            }
            self.current_index = index + 1;
            Ok(true)
        } else {
            self.current_index = index + 1;
            Ok(false)
        }
    }

    /// Appends the slot for the hook that just took the next position.
    fn push_slot(&mut self, kind: HookKind, slot: Slot<T, C>)
        requires
            old(self).current_index == old(self).hooks.len() + 1,
            slot.fits(kind),
            forall|i: int| 0 <= i < old(self).hooks.len() ==> #[trigger] old(self).hooks[i].slot.fits(old(self).hooks[i].meta.hook_type),
            forall|i: int| 0 <= i < old(self).hooks.len() ==> match #[trigger] old(self).hooks[i].slot {
                Slot::Effect { cleanup: Some(c), .. } => c.requires(()),
                _ => true,
            },
            match slot {
                Slot::Effect { cleanup: Some(c), .. } => c.requires(()),
                _ => true,
            },
            forall|i: int| 0 <= i < old(self).hooks.len() ==> (#[trigger] old(self).hooks[i].meta).value_type@ == stored_name(old(self).hooks[i].meta.hook_type),
        ensures
            final(self).wf(),
            final(self).hooks.len() == old(self).hooks.len() + 1,
            final(self).hooks[old(self).hooks.len() as int].slot == slot,
            final(self).hooks[old(self).hooks.len() as int].meta.hook_type == kind,
            forall|i: int| 0 <= i < old(self).hooks.len() ==> #[trigger] final(self).hooks[i] == old(self).hooks[i],
            final(self).current_index == old(self).current_index,
            final(self).is_rendering == old(self).is_rendering,
            final(self).expected_count == old(self).expected_count,
            final(self).render_count == old(self).render_count,
            final(self).context == old(self).context,
    {
        let meta = HookMeta { hook_type: kind, value_type: kind.stored() };
        self.hooks.push(HookEntry { slot, meta });
    }

    /// Forgets every slot and every completed pass.
    fn clear(&mut self)
        ensures
            final(self).wf(),
            final(self).hook_count() == 0,
            final(self).index() == 0,
            !final(self).rendering(),
            final(self).expected() == None::<usize>,
            final(self).passes() == 0,
            final(self).context() == old(self).context(),
    {
        self.hooks.clear();
        self.current_index = 0;
        self.is_rendering = false;
        self.expected_count = None;
        self.render_count = 0;
    }
}


impl<T, C: FnOnce()> HookRegistry<T, C> {
    /// Replaces the state of the effect slot at `i` and hands back the
    /// cleanup it kept.
    fn swap_effect_state(&mut self, i: usize, last: Option<T>, cleanup: Option<C>) -> (r: Option<C>)
        requires
            old(self).wf(),
            i < old(self).hooks.len(),
            old(self).hooks[i as int].slot is Effect,
            match cleanup {
                Some(c) => c.requires(()),
                None => true,
            },
        ensures
            final(self).wf(),
            r == old(self).cleanup_at(i as nat),
            match r {
                Some(c) => c.requires(()),
                None => true,
            },
            final(self).deps_at(i as nat) == last,
            final(self).cleanup_at(i as nat) == cleanup,
            final(self).hooks[i as int].slot is Effect,
            final(self).hooks.len() == old(self).hooks.len(),
            final(self).hooks[i as int].meta == old(self).hooks[i as int].meta,
            forall|j: int| 0 <= j < old(self).hooks.len() && j != i ==> #[trigger] final(self).hooks[j] == old(self).hooks[j],
            final(self).current_index == old(self).current_index,
            final(self).is_rendering == old(self).is_rendering,
            final(self).expected_count == old(self).expected_count,
            final(self).render_count == old(self).render_count,
            final(self).context == old(self).context,
    {
        let mut slot = Slot::Effect { last, cleanup };
        assert(old(self).hooks[i as int].slot.fits(old(self).hooks[i as int].meta.hook_type));
        std::mem::swap(&mut self.hooks[i].slot, &mut slot);
        assert forall|j: int| 0 <= j < self.hooks.len() implies #[trigger] self.hooks[j].slot.fits(self.hooks[j].meta.hook_type) by {
            assert(old(self).hooks[j].slot.fits(old(self).hooks[j].meta.hook_type));
        }
        assert forall|j: int| 0 <= j < self.hooks.len() implies match #[trigger] self.hooks[j].slot {
            Slot::Effect { cleanup: Some(c), .. } => c.requires(()),
            _ => true,
        } by {
            if j != i {
                assert(self.hooks[j] == old(self).hooks[j]);
            }
        }
        match slot {
            Slot::Effect { last: _, cleanup } => cleanup,
            _ => None,
        }
    }
}

/// Opens a render pass: the next hook call takes the first position.
pub fn begin_render<T, C: FnOnce()>(reg: &mut HookRegistry<T, C>)
    requires
        old(reg).wf(),
    ensures
        final(reg).wf(),
        final(reg).index() == 0,
        final(reg).rendering(),
        final(reg).kinds() == old(reg).kinds(),
        final(reg).hook_count() == old(reg).hook_count(),
        final(reg).expected() == old(reg).expected(),
        final(reg).passes() == old(reg).passes(),
        final(reg).context() == old(reg).context(),
        old(reg).same_slots(*final(reg)),
        forall|i: nat| #[trigger] final(reg).signal_at(i) == old(reg).signal_at(i),
        forall|i: nat| #[trigger] final(reg).ref_at(i) == old(reg).ref_at(i),
        forall|i: nat| #[trigger] final(reg).memo_at(i) == old(reg).memo_at(i),
        forall|i: nat| #[trigger] final(reg).deps_at(i) == old(reg).deps_at(i),
        forall|i: nat| #[trigger] final(reg).memo_value_at(i) == old(reg).memo_value_at(i),
{
    reg.begin_render();
    assert(final(reg).kinds() =~= old(reg).kinds());
}

/// Closes a render pass. Fails with [`HookError::HookCountMismatch`] when
/// the last completed pass called a different number of hooks; otherwise
/// this pass's count becomes the one the next pass must match.
pub fn end_render<T, C: FnOnce()>(reg: &mut HookRegistry<T, C>) -> (r: Result<(), HookError>)
    requires
        old(reg).wf(),
    ensures
        final(reg).wf(),
        !final(reg).rendering(),
        final(reg).kinds() == old(reg).kinds(),
        final(reg).hook_count() == old(reg).hook_count(),
        final(reg).context() == old(reg).context(),
        old(reg).same_slots(*final(reg)),
        forall|i: nat| #[trigger] final(reg).signal_at(i) == old(reg).signal_at(i),
        forall|i: nat| #[trigger] final(reg).ref_at(i) == old(reg).ref_at(i),
        forall|i: nat| #[trigger] final(reg).memo_at(i) == old(reg).memo_at(i),
        forall|i: nat| #[trigger] final(reg).deps_at(i) == old(reg).deps_at(i),
        forall|i: nat| #[trigger] final(reg).memo_value_at(i) == old(reg).memo_value_at(i),
        match old(reg).expected() {
            Some(e) if e != old(reg).index() => {
                &&& r == Err::<(), HookError>(HookError::HookCountMismatch { expected: e, actual: old(reg).index() as usize })
                &&& final(reg).expected() == old(reg).expected()
            },
            _ => {
                &&& r == Ok::<(), HookError>(())
                &&& final(reg).expected() == Some(old(reg).index() as usize)
            },
        },
{
    let r = reg.end_render();
    assert(final(reg).kinds() =~= old(reg).kinds());
    r
}

/// Forgets every hook slot, every completed pass and the context value.
pub fn clear_hooks<T, C: FnOnce()>(reg: &mut HookRegistry<T, C>)
    ensures
        final(reg).wf(),
        final(reg).hook_count() == 0,
        final(reg).index() == 0,
        !final(reg).rendering(),
        final(reg).expected() == None::<usize>,
        final(reg).passes() == 0,
        final(reg).context() == None::<T>,
{
    reg.clear();
    clear_context(reg);
}

/// The kind and stored type of each slot, by position.
pub fn get_hooks_debug_info<T, C: FnOnce()>(reg: &HookRegistry<T, C>) -> (r: Vec<HookMeta>)
    requires
        reg.wf(),
    ensures
        r@ == reg.metas(),
        r@.len() == reg.hook_count(),
        forall|i: int| 0 <= i < r@.len() ==> #[trigger] r@[i].hook_type == reg.kinds()[i],
        forall|i: int| 0 <= i < r@.len() ==> (#[trigger] r@[i]).value_type@ == stored_name(reg.kinds()[i]),
{
    let mut out: Vec<HookMeta> = Vec::new();
    let mut i: usize = 0;
    while i < reg.hooks.len()
        invariant
            i <= reg.hooks.len(),
            out@ == reg.metas().subrange(0, i as int),
            forall|j: int| 0 <= j < i ==> #[trigger] out@[j].hook_type == reg.kinds()[j],
        decreases reg.hooks.len() - i,
    {
        out.push(reg.hooks[i].meta);
        assert(out@ =~= reg.metas().subrange(0, i + 1));
        i = i + 1;
    }
    assert(reg.metas().subrange(0, i as int) =~= reg.metas());
    out
}

/// Publishes `value` as the context value, replacing any earlier one, and
/// hands it back. Publishing notifies no observer.
pub fn create_context<T: Clone, C>(reg: &mut HookRegistry<T, C>, value: T) -> (r: T)
    ensures
        r == value,
        final(reg).context() is Some && cloned(value, final(reg).context()->0),
        old(reg).same_hooks(*final(reg)),
{
    reg.context = Some(value.clone());
    value
}

/// The published context value, if any.
pub fn use_context<T: Clone, C>(reg: &HookRegistry<T, C>) -> (r: Option<T>)
    ensures
        match (reg.context(), r) {
            (Some(c), Some(v)) => cloned(c, v),
            (None, None) => true,
            _ => false,
        },
{
    match &reg.context {
        Some(c) => Some(c.clone()),
        None => None,
    }
}

/// Removes the context value.
fn clear_context<T, C>(reg: &mut HookRegistry<T, C>)
    ensures
        final(reg).context() == None::<T>,
        old(reg).same_hooks(*final(reg)),
{
    reg.context = None;
}


/// A value hook: a signal kept at this position. The first pass creates it
/// with what `init` returns; later passes get the same signal back and do
/// not call `init`.
pub fn use_signal<T, C: FnOnce(), B: Task<T>, F: FnOnce() -> T>(
    reg: &mut HookRegistry<T, C>,
    rt: &mut Runtime<T, B>,
    init: F,
) -> (r: Result<Signal, HookError>)
    requires
        old(reg).wf(),
        old(rt).wf(),
        old(reg).belongs_to(*old(rt)),
        old(reg).hook_count() < usize::MAX,
        init.requires(()),
    ensures
        final(reg).wf(),
        final(rt).wf(),
        final(reg).belongs_to(*final(rt)),
        old(rt).extended_by(*final(rt)),
        match old(reg).fault(HookKind::Signal) {
            Some(e) => r == Err::<Signal, HookError>(e) && *final(reg) == *old(reg) && *final(rt) == *old(rt),
            None => match r {
                Ok(s) => {
                    &&& old(reg).advanced(*final(reg), HookKind::Signal)
                    &&& final(reg).signal_at(old(reg).index()) == Some(s)
                    &&& final(rt).has_signal(s)
                    &&& old(reg).replays() ==> old(reg).signal_at(old(reg).index()) == Some(s) && *final(rt)
                        == *old(rt)
                    &&& !old(reg).replays() ==> {
                        &&& init.ensures((), final(rt).value(s))
                        &&& final(rt).subscribers(s) == Seq::<usize>::empty()
                        &&& old(rt).keeps_signals(*final(rt))
                        &&& old(rt).observers_kept(*final(rt))
                    }
                },
                Err(_) => false,
            },
        },
{
    proof {
        old(rt).lemma_extended_refl();
    }
    match reg.use_hook(HookKind::Signal) {
        Err(e) => Err(e),
        Ok(true) => {
            let i = reg.current_index - 1;
            assert(reg.hooks[i as int].slot.fits(reg.hooks[i as int].meta.hook_type));
            match &reg.hooks[i].slot {
                Slot::Signal(s) => {
                    assert(old(reg).belongs_to(*old(rt)));
                    Ok(*s)
                },
                _ => vstd::pervasive::unreached(),
            }
        },
        Ok(false) => {
            let v = init();
            let ghost rt0 = *rt;
            let s = Signal::new(rt, v);
            let ghost before = *reg;
            reg.push_slot(HookKind::Signal, Slot::Signal(s));
            proof {
                before.lemma_belongs_after(rt0, *rt);
                assert forall|i: int| 0 <= i < reg.hooks.len() implies match #[trigger] reg.hooks[i].slot {
                    Slot::Signal(s) => rt.has_signal(s),
                    Slot::Derived(m) => rt.has_memo(m),
                    _ => true,
                } by {
                    if i < before.hooks.len() {
                        assert(reg.hooks[i] == before.hooks[i]);
                    }
                }
            }
            Ok(s)
        },
    }
}


/// A state hook: the current value of the signal [`use_signal`] keeps here,
/// and that signal, whose `set` is the setter.
pub fn use_state<T: Clone, C: FnOnce(), B: Task<T>, F: FnOnce() -> T>(
    reg: &mut HookRegistry<T, C>,
    rt: &mut Runtime<T, B>,
    init: F,
) -> (r: Result<(T, Signal), HookError>)
    requires
        old(reg).wf(),
        old(rt).wf(),
        old(reg).belongs_to(*old(rt)),
        old(reg).hook_count() < usize::MAX,
        init.requires(()),
    ensures
        final(reg).wf(),
        final(rt).wf(),
        final(reg).belongs_to(*final(rt)),
        old(rt).extended_by(*final(rt)),
        match old(reg).fault(HookKind::Signal) {
            Some(e) => r == Err::<(T, Signal), HookError>(e) && *final(reg) == *old(reg),
            None => match r {
                Ok((v, s)) => {
                    &&& old(reg).advanced(*final(reg), HookKind::Signal)
                    &&& final(reg).signal_at(old(reg).index()) == Some(s)
                    &&& final(rt).has_signal(s)
                    &&& cloned(final(rt).value(s), v)
                    &&& old(reg).replays() ==> old(reg).signal_at(old(reg).index()) == Some(s)
                    &&& !old(reg).replays() ==> init.ensures((), final(rt).value(s))
                },
                Err(_) => false,
            },
        },
{
    let s = match use_signal(reg, rt, init) {
        Ok(s) => s,
        Err(e) => {
            return Err(e);
        },
    };
    let ghost rt0 = *rt;
    let v = s.get(rt);
    proof {
        Runtime::<T, B>::lemma_extended_trans(*old(rt), rt0, *rt);
        reg.lemma_belongs_after(rt0, *rt);
    }
    Ok((v, s))
}

/// A reference hook: a value kept at this position that changes only
/// through its handle and never causes a render pass. The first pass
/// stores what `init` returns.
pub fn use_ref<T, C: FnOnce(), F: FnOnce() -> T>(reg: &mut HookRegistry<T, C>, init: F) -> (r: Result<RefHandle, HookError>)
    requires
        old(reg).wf(),
        old(reg).hook_count() < usize::MAX,
        init.requires(()),
    ensures
        final(reg).wf(),
        match old(reg).fault(HookKind::Ref) {
            Some(e) => r == Err::<RefHandle, HookError>(e) && *final(reg) == *old(reg),
            None => match r {
                Ok(h) => {
                    &&& old(reg).advanced(*final(reg), HookKind::Ref)
                    &&& h.position() == old(reg).index()
                    &&& final(reg).has_ref(h)
                    &&& old(reg).replays() ==> final(reg).ref_at(h.position()) == old(reg).ref_at(h.position())
                    &&& !old(reg).replays() ==> init.ensures((), final(reg).ref_at(h.position())->0)
                },
                Err(_) => false,
            },
        },
{
    match reg.use_hook(HookKind::Ref) {
        Err(e) => Err(e),
        Ok(true) => {
            let i = reg.current_index - 1;
            assert(reg.hooks[i as int].slot.fits(reg.hooks[i as int].meta.hook_type));
            Ok(RefHandle { index: i })
        },
        Ok(false) => {
            let i = reg.current_index - 1;
            let v = init();
            reg.push_slot(HookKind::Ref, Slot::Ref(v));
            Ok(RefHandle { index: i })
        },
    }
}

impl RefHandle {
    /// A borrow of the kept value.
    pub fn borrow<'a, T, C>(&self, reg: &'a HookRegistry<T, C>) -> (r: &'a T)
        requires
            reg.has_ref(*self),
        ensures
            Some(*r) == reg.ref_at(self.position()),
    {
        match &reg.hooks[self.index].slot {
            Slot::Ref(v) => v,
            _ => vstd::pervasive::unreached(),
        }
    }

    /// A mutable borrow of the kept value.
    pub fn borrow_mut<'a, T, C>(&self, reg: &'a mut HookRegistry<T, C>) -> (r: &'a mut T)
        requires
            old(reg).has_ref(*self),
        ensures
            Some(*r) == old(reg).ref_at(self.position()),
    {
        match &mut reg.hooks[self.index].slot {
            Slot::Ref(v) => v,
            _ => vstd::pervasive::unreached(),
        }
    }

    /// A copy of the kept value.
    pub fn get<T: Clone, C>(&self, reg: &HookRegistry<T, C>) -> (r: T)
        requires
            reg.has_ref(*self),
        ensures
            cloned(reg.ref_at(self.position())->0, r),
    {
        self.borrow(reg).clone()
    }

    /// Replaces the kept value with `value`.
    pub fn set<T, C: FnOnce()>(&self, reg: &mut HookRegistry<T, C>, value: T)
        requires
            old(reg).wf(),
            old(reg).has_ref(*self),
        ensures
            final(reg).wf(),
            final(reg).ref_at(self.position()) == Some(value),
            final(reg).has_ref(*self),
            final(reg).hook_count() == old(reg).hook_count(),
            old(reg).same_pass(*final(reg)),
            forall|i: nat| #[trigger] final(reg).memo_at(i) == old(reg).memo_at(i),
            final(reg).kinds() == old(reg).kinds(),
            final(reg).index() == old(reg).index(),
            final(reg).rendering() == old(reg).rendering(),
            final(reg).expected() == old(reg).expected(),
            forall|i: nat| i != self.position() ==> #[trigger] final(reg).ref_at(i) == old(reg).ref_at(i),
            forall|i: nat| #[trigger] final(reg).signal_at(i) == old(reg).signal_at(i),
    {
        reg.hooks[self.index].slot = Slot::Ref(value);
        assert forall|j: int| 0 <= j < reg.hooks.len() implies #[trigger] reg.hooks[j].slot.fits(reg.hooks[j].meta.hook_type) by {
            assert(old(reg).hooks[j].slot.fits(old(reg).hooks[j].meta.hook_type));
        }
        assert forall|j: int| 0 <= j < reg.hooks.len() implies match #[trigger] reg.hooks[j].slot {
            Slot::Effect { cleanup: Some(c), .. } => c.requires(()),
            _ => true,
        } by {
            if j != self.index {
                assert(reg.hooks[j] == old(reg).hooks[j]);
            }
        }
        assert(final(reg).kinds() =~= old(reg).kinds());
    }
}


/// Whether the dependency value `last` recorded by a hook calls for a new
/// run given the dependency value `deps` of this pass.
fn deps_changed<T: PartialEq>(last: &Option<T>, deps: &T) -> (r: bool)
    ensures
        last is None ==> r,
        last is Some && T::obeys_eq_spec() ==> r == !last->0.eq_spec(deps),
{
    match last {
        Some(p) => !p.eq(deps),
        None => true,
    }
}

/// An effect hook. `effect_fn` runs on the first pass, and on a later pass
/// when `deps` differs from the dependency value recorded by the last run;
/// the cleanup an earlier run left, if any, runs first. Returns whether
/// `effect_fn` ran.
pub fn use_effect<T: PartialEq, C: FnOnce(), F: FnOnce()>(reg: &mut HookRegistry<T, C>, effect_fn: F, deps: T) -> (r: Result<bool, HookError>)
    requires
        old(reg).wf(),
        old(reg).hook_count() < usize::MAX,
        effect_fn.requires(()),
    ensures
        final(reg).wf(),
        match old(reg).fault(HookKind::Effect) {
            Some(e) => r == Err::<bool, HookError>(e) && *final(reg) == *old(reg),
            None => match r {
                Ok(ran) => {
                    &&& old(reg).advanced(*final(reg), HookKind::Effect)
                    &&& !old(reg).replays() ==> ran
                    &&& old(reg).replays() && old(reg).deps_at(old(reg).index()) is Some && T::obeys_eq_spec()
                        ==> ran == !old(reg).deps_at(old(reg).index())->0.eq_spec(&deps)
                    &&& ran ==> effect_fn.ensures((), ()) && final(reg).deps_at(old(reg).index()) == Some(deps)
                    &&& ran && old(reg).replays() ==> match old(reg).cleanup_at(old(reg).index()) {
                        Some(c) => c.ensures((), ()),
                        None => true,
                    }
                    &&& !ran ==> final(reg).deps_at(old(reg).index()) == old(reg).deps_at(old(reg).index())
                        && final(reg).cleanup_at(old(reg).index()) == old(reg).cleanup_at(old(reg).index())
                },
                Err(_) => false,
            },
        },
{
    match reg.use_hook(HookKind::Effect) {
        Err(e) => Err(e),
        Ok(false) => {
            effect_fn();
            reg.push_slot(HookKind::Effect, Slot::Effect { last: Some(deps), cleanup: None });
            Ok(true)
        },
        Ok(true) => {
            let i = reg.current_index - 1;
            assert(reg.hooks[i as int].slot.fits(reg.hooks[i as int].meta.hook_type));
            let run = match &reg.hooks[i].slot {
                Slot::Effect { last, .. } => deps_changed(last, &deps),
                _ => true,
            };
            if run {
                let cleanup = reg.swap_effect_state(i, Some(deps), None);
                match cleanup {
                    Some(c) => c(),
                    None => {},
                }
                effect_fn();
            }
            Ok(run)
        },
    }
}

/// An effect hook whose run returns a cleanup. It runs as [`use_effect`]
/// does; the cleanup it returns is kept and runs before its next run.
pub fn use_effect_cleanup<T: PartialEq, C: FnOnce(), F: FnOnce() -> C>(
    reg: &mut HookRegistry<T, C>,
    effect_fn: F,
    deps: T,
) -> (r: Result<bool, HookError>)
    requires
        old(reg).wf(),
        old(reg).hook_count() < usize::MAX,
        effect_fn.requires(()),
        forall|c: C| effect_fn.ensures((), c) ==> c.requires(()),
    ensures
        final(reg).wf(),
        match old(reg).fault(HookKind::EffectCleanup) {
            Some(e) => r == Err::<bool, HookError>(e) && *final(reg) == *old(reg),
            None => match r {
                Ok(ran) => {
                    &&& old(reg).advanced(*final(reg), HookKind::EffectCleanup)
                    &&& !old(reg).replays() ==> ran
                    &&& old(reg).replays() && old(reg).deps_at(old(reg).index()) is Some && T::obeys_eq_spec()
                        ==> ran == !old(reg).deps_at(old(reg).index())->0.eq_spec(&deps)
                    &&& ran ==> {
                        &&& final(reg).deps_at(old(reg).index()) == Some(deps)
                        &&& final(reg).cleanup_at(old(reg).index()) is Some
                        &&& effect_fn.ensures((), final(reg).cleanup_at(old(reg).index())->0)
                    }
                    &&& ran && old(reg).replays() ==> match old(reg).cleanup_at(old(reg).index()) {
                        Some(c) => c.ensures((), ()),
                        None => true,
                    }
                    &&& !ran ==> final(reg).deps_at(old(reg).index()) == old(reg).deps_at(old(reg).index())
                        && final(reg).cleanup_at(old(reg).index()) == old(reg).cleanup_at(old(reg).index())
                },
                Err(_) => false,
            },
        },
{
    match reg.use_hook(HookKind::EffectCleanup) {
        Err(e) => Err(e),
        Ok(false) => {
            let c = effect_fn();
            reg.push_slot(HookKind::EffectCleanup, Slot::Effect { last: Some(deps), cleanup: Some(c) });
            Ok(true)
        },
        Ok(true) => {
            let i = reg.current_index - 1;
            assert(reg.hooks[i as int].slot.fits(reg.hooks[i as int].meta.hook_type));
            let run = match &reg.hooks[i].slot {
                Slot::Effect { last, .. } => deps_changed(last, &deps),
                _ => true,
            };
            if run {
                let previous = reg.swap_effect_state(i, None, None);
                match previous {
                    Some(c) => c(),
                    None => {},
                }
                let next = effect_fn();
                let _ = reg.swap_effect_state(i, Some(deps), Some(next));
            }
            Ok(run)
        },
    }
}

/// A mount hook: `effect_fn` runs on the first pass only, and the cleanup
/// it returns is kept. Returns whether it ran.
pub fn use_mount<T, C: FnOnce(), F: FnOnce() -> C>(reg: &mut HookRegistry<T, C>, effect_fn: F) -> (r: Result<bool, HookError>)
    requires
        old(reg).wf(),
        old(reg).hook_count() < usize::MAX,
        effect_fn.requires(()),
        forall|c: C| effect_fn.ensures((), c) ==> c.requires(()),
    ensures
        final(reg).wf(),
        match old(reg).fault(HookKind::EffectCleanup) {
            Some(e) => r == Err::<bool, HookError>(e) && *final(reg) == *old(reg),
            None => match r {
                Ok(ran) => {
                    &&& old(reg).advanced(*final(reg), HookKind::EffectCleanup)
                    &&& ran == !old(reg).replays()
                    &&& ran ==> final(reg).cleanup_at(old(reg).index()) is Some && effect_fn.ensures(
                        (),
                        final(reg).cleanup_at(old(reg).index())->0,
                    )
                    &&& !ran ==> final(reg).cleanup_at(old(reg).index()) == old(reg).cleanup_at(old(reg).index())
                },
                Err(_) => false,
            },
        },
{
    match reg.use_hook(HookKind::EffectCleanup) {
        Err(e) => Err(e),
        Ok(false) => {
            let c = effect_fn();
            reg.push_slot(HookKind::EffectCleanup, Slot::Effect { last: None, cleanup: Some(c) });
            Ok(true)
        },
        Ok(true) => Ok(false),
    }
}


/// A memoization hook: the value `compute` returns, computed on the first
/// pass and again on a later pass when `deps` differs from the dependency
/// value of the last computation; otherwise the cached value.
pub fn use_memo<T: Clone + PartialEq, C: FnOnce(), F: FnOnce() -> T>(
    reg: &mut HookRegistry<T, C>,
    compute: F,
    deps: T,
) -> (r: Result<T, HookError>)
    requires
        old(reg).wf(),
        old(reg).hook_count() < usize::MAX,
        compute.requires(()),
    ensures
        final(reg).wf(),
        match old(reg).fault(HookKind::Memo) {
            Some(e) => r == Err::<T, HookError>(e) && *final(reg) == *old(reg),
            None => match r {
                Ok(v) => {
                    &&& old(reg).advanced(*final(reg), HookKind::Memo)
                    &&& final(reg).memo_value_at(old(reg).index()) is Some
                    &&& old(reg).replays() && T::obeys_eq_spec() && old(reg).deps_at(old(reg).index())->0.eq_spec(&deps)
                        ==> {
                        &&& cloned(old(reg).memo_value_at(old(reg).index())->0, v)
                        &&& final(reg).memo_value_at(old(reg).index()) == old(reg).memo_value_at(old(reg).index())
                        &&& final(reg).deps_at(old(reg).index()) == old(reg).deps_at(old(reg).index())
                    }
                    &&& !old(reg).replays() || (T::obeys_eq_spec() && !old(reg).deps_at(old(reg).index())->0.eq_spec(&deps))
                        ==> {
                        &&& compute.ensures((), v)
                        &&& cloned(v, final(reg).memo_value_at(old(reg).index())->0)
                        &&& final(reg).deps_at(old(reg).index()) == Some(deps)
                    }
                },
                Err(_) => false,
            },
        },
{
    match reg.use_hook(HookKind::Memo) {
        Err(e) => Err(e),
        Ok(false) => {
            let v = compute();
            let kept = v.clone();
            reg.push_slot(HookKind::Memo, Slot::Memo { value: kept, deps });
            Ok(v)
        },
        Ok(true) => {
            let i = reg.current_index - 1;
            assert(reg.hooks[i as int].slot.fits(reg.hooks[i as int].meta.hook_type));
            let cached = match &reg.hooks[i].slot {
                Slot::Memo { value, deps: last } => {
                    if last.eq(&deps) {
                        Some(value.clone())
                    } else {
                        None
                    }
                },
                _ => None,
            };
            match cached {
                Some(v) => Ok(v),
                None => {
                    let v = compute();
                    let kept = v.clone();
                    let ghost before = *reg;
                    reg.hooks[i].slot = Slot::Memo { value: kept, deps };
                    assert forall|j: int| 0 <= j < reg.hooks.len() implies #[trigger] reg.hooks[j].slot.fits(reg.hooks[j].meta.hook_type) by {
                        assert(before.hooks[j].slot.fits(before.hooks[j].meta.hook_type));
                    }
                    assert forall|j: int| 0 <= j < reg.hooks.len() implies match #[trigger] reg.hooks[j].slot {
                        Slot::Effect { cleanup: Some(c), .. } => c.requires(()),
                        _ => true,
                    } by {
                        if j != i {
                            assert(reg.hooks[j] == before.hooks[j]);
                        }
                    }
                    Ok(v)
                },
            }
        },
    }
}

/// A callback-memoization hook: `callback` itself on the first pass and
/// whenever `deps` changed; otherwise the callback kept by the last such
/// pass.
pub fn use_callback<T: Clone + PartialEq, C: FnOnce()>(reg: &mut HookRegistry<T, C>, callback: T, deps: T) -> (r: Result<T, HookError>)
    requires
        old(reg).wf(),
        old(reg).hook_count() < usize::MAX,
    ensures
        final(reg).wf(),
        match old(reg).fault(HookKind::Memo) {
            Some(e) => r == Err::<T, HookError>(e) && *final(reg) == *old(reg),
            None => match r {
                Ok(v) => {
                    &&& old(reg).advanced(*final(reg), HookKind::Memo)
                    &&& old(reg).replays() && T::obeys_eq_spec() && old(reg).deps_at(old(reg).index())->0.eq_spec(&deps)
                        ==> cloned(old(reg).memo_value_at(old(reg).index())->0, v)
                    &&& !old(reg).replays() || (T::obeys_eq_spec() && !old(reg).deps_at(old(reg).index())->0.eq_spec(&deps))
                        ==> v == callback && final(reg).deps_at(old(reg).index()) == Some(deps) && cloned(
                        callback,
                        final(reg).memo_value_at(old(reg).index())->0,
                    )
                },
                Err(_) => false,
            },
        },
{
    let ghost given = callback;
    let make = (move || -> (c: T)
        ensures
            c == given,
        {
            callback
        });
    use_memo(reg, make, deps)
}

/// An auto-tracking derived hook: a memo over `compute`, created on the
/// first pass; later passes get the same memo back.
pub fn use_derived<T, C: FnOnce(), B: Task<T>>(reg: &mut HookRegistry<T, C>, rt: &mut Runtime<T, B>, compute: B) -> (r: Result<Memo, HookError>)
    requires
        old(reg).wf(),
        old(rt).wf(),
        old(reg).belongs_to(*old(rt)),
        old(reg).hook_count() < usize::MAX,
    ensures
        final(reg).wf(),
        final(rt).wf(),
        final(reg).belongs_to(*final(rt)),
        old(rt).extended_by(*final(rt)),
        match old(reg).fault(HookKind::Derived) {
            Some(e) => r == Err::<Memo, HookError>(e) && *final(reg) == *old(reg) && *final(rt) == *old(rt),
            None => match r {
                Ok(m) => {
                    &&& old(reg).advanced(*final(reg), HookKind::Derived)
                    &&& final(reg).memo_at(old(reg).index()) == Some(m)
                    &&& final(rt).has_memo(m)
                    &&& old(reg).replays() ==> old(reg).memo_at(old(reg).index()) == Some(m) && *final(rt)
                        == *old(rt)
                    &&& !old(reg).replays() ==> final(rt).dirty(m) && final(rt).cached(m) == None::<T>
                },
                Err(_) => false,
            },
        },
{
    proof {
        old(rt).lemma_extended_refl();
    }
    match reg.use_hook(HookKind::Derived) {
        Err(e) => Err(e),
        Ok(true) => {
            let i = reg.current_index - 1;
            assert(reg.hooks[i as int].slot.fits(reg.hooks[i as int].meta.hook_type));
            match &reg.hooks[i].slot {
                Slot::Derived(m) => {
                    assert(old(reg).belongs_to(*old(rt)));
                    Ok(*m)
                },
                _ => vstd::pervasive::unreached(),
            }
        },
        Ok(false) => {
            let ghost rt0 = *rt;
            let m = Memo::new(rt, compute);
            let ghost before = *reg;
            reg.push_slot(HookKind::Derived, Slot::Derived(m));
            proof {
                before.lemma_belongs_after(rt0, *rt);
                assert forall|i: int| 0 <= i < reg.hooks.len() implies match #[trigger] reg.hooks[i].slot {
                    Slot::Signal(s) => rt.has_signal(s),
                    Slot::Derived(m) => rt.has_memo(m),
                    _ => true,
                } by {
                    if i < before.hooks.len() {
                        assert(reg.hooks[i] == before.hooks[i]);
                    }
                }
            }
            Ok(m)
        },
    }
}

} // verus!
