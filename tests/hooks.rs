use rinch::hooks::{
    begin_render, clear_hooks, create_context, end_render, get_hooks_debug_info, use_callback, use_context, use_derived,
    use_effect, use_effect_cleanup, use_memo, use_mount, use_ref, use_signal, use_state, HookError, HookKind,
    HookRegistry,
};
use rinch::reactive::{Runtime, Signal, Task};
use std::cell::Cell;
use std::rc::Rc;

struct Body(Box<dyn FnMut(&mut Runtime<i32, Body>) -> Option<i32>>);

impl Task<i32> for Body {
    fn run(&mut self, rt: &mut Runtime<i32, Body>) -> Option<i32> {
        (self.0)(rt)
    }
}

type Cleanup = Box<dyn FnOnce()>;

fn setup() -> (HookRegistry<i32, Cleanup>, Runtime<i32, Body>) {
    (HookRegistry::new(), Runtime::new())
}

#[test]
fn use_signal_persists_across_renders() {
    let (mut reg, mut rt) = setup();

    begin_render(&mut reg);
    let signal1 = use_signal(&mut reg, &mut rt, || 42).unwrap();
    assert_eq!(signal1.get(&mut rt), 42);
    signal1.set(&mut rt, 100);
    end_render(&mut reg).unwrap();

    begin_render(&mut reg);
    let signal2 = use_signal(&mut reg, &mut rt, || 0).unwrap();
    assert_eq!(signal2.get(&mut rt), 100);
    end_render(&mut reg).unwrap();
}

#[test]
fn use_memo_caches_value() {
    let mut reg: HookRegistry<&'static str, Cleanup> = HookRegistry::new();
    let mut compute_count = 0;

    begin_render(&mut reg);
    let value1 = use_memo(
        &mut reg,
        || {
            compute_count += 1;
            "computed"
        },
        "dep1",
    )
    .unwrap();
    assert_eq!(value1, "computed");
    end_render(&mut reg).unwrap();
    assert_eq!(compute_count, 1);

    begin_render(&mut reg);
    let value2 = use_memo(
        &mut reg,
        || {
            compute_count += 1;
            "computed again"
        },
        "dep1",
    )
    .unwrap();
    assert_eq!(value2, "computed");
    end_render(&mut reg).unwrap();
    assert_eq!(compute_count, 1);
}

#[test]
fn use_ref_persists_without_rerenders() {
    let (mut reg, _rt) = setup();

    begin_render(&mut reg);
    let ref1 = use_ref(&mut reg, || 0).unwrap();
    *ref1.borrow_mut(&mut reg) = 42;
    end_render(&mut reg).unwrap();

    begin_render(&mut reg);
    let ref2 = use_ref(&mut reg, || 0).unwrap();
    assert_eq!(*ref2.borrow(&reg), 42);
    assert_eq!(ref2.get(&reg), 42);
    end_render(&mut reg).unwrap();
}

#[test]
#[should_panic(expected = "outside of render")]
fn hook_outside_render_panics() {
    let (mut reg, mut rt) = setup();
    if let Err(e) = use_signal(&mut reg, &mut rt, || 0) {
        panic!("{}", e.message());
    }
}

#[test]
#[should_panic(expected = "Hook count mismatch")]
fn hook_count_mismatch_panics() {
    let (mut reg, mut rt) = setup();

    begin_render(&mut reg);
    let _ = use_signal(&mut reg, &mut rt, || 0).unwrap();
    let _ = use_signal(&mut reg, &mut rt, || 0).unwrap();
    end_render(&mut reg).unwrap();

    begin_render(&mut reg);
    let _ = use_signal(&mut reg, &mut rt, || 0).unwrap();
    if let Err(e) = end_render(&mut reg) {
        panic!("{}", e.message());
    }
}

#[test]
#[should_panic(expected = "Hook order mismatch")]
fn hook_order_mismatch_panics() {
    let (mut reg, mut rt) = setup();

    begin_render(&mut reg);
    let _ = use_signal(&mut reg, &mut rt, || 0).unwrap();
    let _ = use_ref(&mut reg, || 0).unwrap();
    end_render(&mut reg).unwrap();

    begin_render(&mut reg);
    if let Err(e) = use_ref(&mut reg, || 0) {
        panic!("{}", e.message());
    }
    let _ = use_signal(&mut reg, &mut rt, || 0);
    let _ = end_render(&mut reg);
}

#[test]
fn outside_render_error_names_the_hook() {
    let (mut reg, mut rt) = setup();
    let err = use_signal(&mut reg, &mut rt, || 0).unwrap_err();
    assert_eq!(err, HookError::HookCalledOutsideRender { hook: HookKind::Signal });
    assert_eq!(err.message(), "hooks error: `use_signal` called outside of render");
}

#[test]
fn count_mismatch_reports_both_counts() {
    let (mut reg, mut rt) = setup();
    begin_render(&mut reg);
    let _ = use_signal(&mut reg, &mut rt, || 0).unwrap();
    let _ = use_signal(&mut reg, &mut rt, || 0).unwrap();
    end_render(&mut reg).unwrap();
    begin_render(&mut reg);
    let _ = use_signal(&mut reg, &mut rt, || 0).unwrap();
    let err = end_render(&mut reg).unwrap_err();
    assert_eq!(err, HookError::HookCountMismatch { expected: 2, actual: 1 });
    assert_eq!(
        err.message(),
        "hooks error: Hook count mismatch! Previous render had 2 hooks, current render has 1 hooks"
    );
}

#[test]
fn order_mismatch_at_index_zero() {
    let (mut reg, mut rt) = setup();
    begin_render(&mut reg);
    let _ = use_signal(&mut reg, &mut rt, || 0).unwrap();
    let _ = use_ref(&mut reg, || 0).unwrap();
    end_render(&mut reg).unwrap();
    begin_render(&mut reg);
    let err = use_ref(&mut reg, || 0).unwrap_err();
    assert_eq!(
        err,
        HookError::HookOrderMismatch { index: 0, previous: HookKind::Signal, current: HookKind::Ref }
    );
    assert_eq!(
        err.message(),
        "hooks error: Hook order mismatch at index 0! Previous render: `use_signal`, current render: `use_ref`"
    );
}

#[test]
fn use_effect_runs_when_deps_change() {
    let (mut reg, _rt) = setup();
    let runs = Rc::new(Cell::new(0));
    for (deps, expect_ran, expect_runs) in [(1, true, 1), (1, false, 1), (2, true, 2)] {
        begin_render(&mut reg);
        let r = runs.clone();
        let ran = use_effect(&mut reg, move || r.set(r.get() + 1), deps).unwrap();
        end_render(&mut reg).unwrap();
        assert_eq!(ran, expect_ran);
        assert_eq!(runs.get(), expect_runs);
    }
}

#[test]
fn use_effect_cleanup_runs_previous_cleanup_first() {
    let (mut reg, _rt) = setup();
    let cleanups = Rc::new(Cell::new(0));
    for deps in [1, 1, 2, 3] {
        begin_render(&mut reg);
        let c = cleanups.clone();
        use_effect_cleanup(
            &mut reg,
            move || -> Cleanup { Box::new(move || c.set(c.get() + 1)) },
            deps,
        )
        .unwrap();
        end_render(&mut reg).unwrap();
    }
    assert_eq!(cleanups.get(), 2);
}

#[test]
fn use_mount_runs_once() {
    let (mut reg, _rt) = setup();
    let mounts = Rc::new(Cell::new(0));
    for _ in 0..3 {
        begin_render(&mut reg);
        let m = mounts.clone();
        use_mount(&mut reg, move || -> Cleanup {
            m.set(m.get() + 1);
            Box::new(|| {})
        })
        .unwrap();
        end_render(&mut reg).unwrap();
    }
    assert_eq!(mounts.get(), 1);
}

#[test]
fn use_callback_keeps_first_callback_while_deps_equal() {
    let mut reg: HookRegistry<i32, Cleanup> = HookRegistry::new();
    let mut got = Vec::new();
    for (callback, deps) in [(10, 1), (20, 1), (30, 2)] {
        begin_render(&mut reg);
        got.push(use_callback(&mut reg, callback, deps).unwrap());
        end_render(&mut reg).unwrap();
    }
    assert_eq!(got, vec![10, 10, 30]);
}

#[test]
fn use_memo_recomputes_when_deps_change() {
    let (mut reg, _rt) = setup();
    let mut got = Vec::new();
    for deps in [1, 1, 5] {
        begin_render(&mut reg);
        got.push(use_memo(&mut reg, || deps * 10, deps).unwrap());
        end_render(&mut reg).unwrap();
    }
    assert_eq!(got, vec![10, 10, 50]);
}

#[test]
fn use_state_and_use_derived() {
    let (mut reg, mut rt) = setup();
    begin_render(&mut reg);
    let (value, setter) = use_state(&mut reg, &mut rt, || 3).unwrap();
    assert_eq!(value, 3);
    let source: Signal = setter;
    let doubled = use_derived(&mut reg, &mut rt, Body(Box::new(move |rt| Some(source.get(rt) * 2)))).unwrap();
    end_render(&mut reg).unwrap();
    setter.set(&mut rt, 8);
    begin_render(&mut reg);
    let (value, _) = use_state(&mut reg, &mut rt, || 0).unwrap();
    let again = use_derived(&mut reg, &mut rt, Body(Box::new(|_| None))).unwrap();
    end_render(&mut reg).unwrap();
    assert_eq!(value, 8);
    assert_eq!(again, doubled);
    assert_eq!(again.get(&mut rt), Ok(16));
}

#[test]
fn context_is_published_and_cleared() {
    let mut reg: HookRegistry<&'static str, Cleanup> = HookRegistry::new();
    assert_eq!(use_context(&reg), None);
    assert_eq!(create_context(&mut reg, "dark"), "dark");
    assert_eq!(use_context(&reg), Some("dark"));
    create_context(&mut reg, "light");
    assert_eq!(use_context(&reg), Some("light"));
    clear_hooks(&mut reg);
    assert_eq!(use_context(&reg), None);
}

#[test]
fn debug_info_lists_kinds_in_order() {
    let (mut reg, mut rt) = setup();
    begin_render(&mut reg);
    let _ = use_signal(&mut reg, &mut rt, || 1).unwrap();
    let _ = use_ref(&mut reg, || 2).unwrap();
    let _ = use_memo(&mut reg, || 3, 0).unwrap();
    end_render(&mut reg).unwrap();
    let kinds: Vec<HookKind> = get_hooks_debug_info(&reg).iter().map(|m| m.hook_type).collect();
    assert_eq!(kinds, vec![HookKind::Signal, HookKind::Ref, HookKind::Memo]);
    assert_eq!(HookKind::Memo.name(), "use_memo");
    clear_hooks(&mut reg);
    assert!(get_hooks_debug_info(&reg).is_empty());
}
