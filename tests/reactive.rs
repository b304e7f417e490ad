use rinch::reactive::{batch, derived, untracked, Effect, Memo, ReactiveError, Runtime, Scope, Signal, Task};
use std::cell::{Cell, RefCell};
use std::rc::Rc;

struct Body(Box<dyn FnMut(&mut Runtime<i32, Body>) -> Option<i32>>);

impl Task<i32> for Body {
    fn run(&mut self, rt: &mut Runtime<i32, Body>) -> Option<i32> {
        (self.0)(rt)
    }
}

fn body(f: impl FnMut(&mut Runtime<i32, Body>) -> Option<i32> + 'static) -> Body {
    Body(Box::new(f))
}

#[test]
fn signal_basic() {
    let mut rt: Runtime<i32, Body> = Runtime::new();
    let signal = Signal::new(&mut rt, 0);
    assert_eq!(signal.get(&mut rt), 0);

    signal.set(&mut rt, 5);
    assert_eq!(signal.get(&mut rt), 5);

    signal.update(&mut rt, |n| n + 1);
    assert_eq!(signal.get(&mut rt), 6);
}

#[test]
fn effect_tracks_signals() {
    let mut rt: Runtime<i32, Body> = Runtime::new();
    let count = Signal::new(&mut rt, 0);
    let run_count = Rc::new(Cell::new(0));

    let run_count_clone = Rc::clone(&run_count);
    Effect::new(
        &mut rt,
        body(move |rt| {
            let _ = count.get(rt);
            run_count_clone.set(run_count_clone.get() + 1);
            None
        }),
    );

    assert_eq!(run_count.get(), 1);

    count.set(&mut rt, 1);
    assert_eq!(run_count.get(), 2);

    count.set(&mut rt, 2);
    assert_eq!(run_count.get(), 3);
}

#[test]
fn memo_caches_value() {
    let mut rt: Runtime<i32, Body> = Runtime::new();
    let count = Signal::new(&mut rt, 2);
    let compute_count = Rc::new(Cell::new(0));

    let compute_count_clone = Rc::clone(&compute_count);
    let doubled = Memo::new(
        &mut rt,
        body(move |rt| {
            compute_count_clone.set(compute_count_clone.get() + 1);
            Some(count.get(rt) * 2)
        }),
    );

    assert_eq!(doubled.get(&mut rt), Ok(4));
    assert_eq!(compute_count.get(), 1);

    assert_eq!(doubled.get(&mut rt), Ok(4));
    assert_eq!(compute_count.get(), 1);

    count.set(&mut rt, 3);

    assert_eq!(doubled.get(&mut rt), Ok(6));
    assert_eq!(compute_count.get(), 2);
}

#[test]
fn batch_prevents_multiple_runs() {
    let mut rt: Runtime<i32, Body> = Runtime::new();
    let count = Signal::new(&mut rt, 0);
    let run_count = Rc::new(Cell::new(0));
    let seen = Rc::new(Cell::new(-1));

    let run_count_clone = Rc::clone(&run_count);
    let seen_clone = Rc::clone(&seen);
    Effect::new(
        &mut rt,
        body(move |rt| {
            seen_clone.set(count.get(rt));
            run_count_clone.set(run_count_clone.get() + 1);
            None
        }),
    );

    assert_eq!(run_count.get(), 1);

    batch(
        &mut rt,
        body(move |rt| {
            count.set(rt, 1);
            count.set(rt, 2);
            count.set(rt, 3);
            None
        }),
    );

    assert_eq!(run_count.get(), 2);
    assert_eq!(count.get(&mut rt), 3);
    assert_eq!(seen.get(), 3);
}

#[test]
fn untracked_prevents_subscription() {
    let mut rt: Runtime<i32, Body> = Runtime::new();
    let count = Signal::new(&mut rt, 0);
    let run_count = Rc::new(Cell::new(0));

    let run_count_clone = Rc::clone(&run_count);
    Effect::new(
        &mut rt,
        body(move |rt| {
            untracked(
                rt,
                body(move |rt| {
                    let _ = count.get(rt);
                    None
                }),
            );
            run_count_clone.set(run_count_clone.get() + 1);
            None
        }),
    );

    assert_eq!(run_count.get(), 1);

    count.set(&mut rt, 1);
    assert_eq!(run_count.get(), 1);
}

#[test]
fn nested_batches_flush_once_at_the_outermost() {
    let mut rt: Runtime<i32, Body> = Runtime::new();
    let count = Signal::new(&mut rt, 0);
    let runs = Rc::new(Cell::new(0));
    let runs_clone = Rc::clone(&runs);
    Effect::new(
        &mut rt,
        body(move |rt| {
            let _ = count.get(rt);
            runs_clone.set(runs_clone.get() + 1);
            None
        }),
    );
    let runs_inside = Rc::new(Cell::new(0));
    let runs_probe = Rc::clone(&runs);
    let runs_inside_clone = Rc::clone(&runs_inside);
    batch(
        &mut rt,
        body(move |rt| {
            batch(
                rt,
                body(move |rt| {
                    count.set(rt, 1);
                    None
                }),
            );
            runs_inside_clone.set(runs_probe.get());
            count.set(rt, 2);
            None
        }),
    );
    assert_eq!(runs_inside.get(), 1);
    assert_eq!(runs.get(), 2);
}

#[test]
fn disposed_effect_does_not_run() {
    let mut rt: Runtime<i32, Body> = Runtime::new();
    let count = Signal::new(&mut rt, 0);
    let runs = Rc::new(Cell::new(0));
    let runs_clone = Rc::clone(&runs);
    let effect = Effect::new(
        &mut rt,
        body(move |rt| {
            let _ = count.get(rt);
            runs_clone.set(runs_clone.get() + 1);
            None
        }),
    );
    assert_eq!(runs.get(), 1);
    effect.dispose(&mut rt);
    count.set(&mut rt, 5);
    assert_eq!(runs.get(), 1);
    effect.run(&mut rt);
    assert_eq!(runs.get(), 1);
}

#[test]
fn deferred_effect_waits_for_run() {
    let mut rt: Runtime<i32, Body> = Runtime::new();
    let count = Signal::new(&mut rt, 0);
    let runs = Rc::new(Cell::new(0));
    let runs_clone = Rc::clone(&runs);
    let effect = Effect::new_deferred(
        &mut rt,
        body(move |rt| {
            let _ = count.get(rt);
            runs_clone.set(runs_clone.get() + 1);
            None
        }),
    );
    assert_eq!(runs.get(), 0);
    count.set(&mut rt, 1);
    assert_eq!(runs.get(), 0);
    effect.run(&mut rt);
    assert_eq!(runs.get(), 1);
    count.set(&mut rt, 2);
    assert_eq!(runs.get(), 2);
}

#[test]
fn pending_effects_run_most_recent_first() {
    let mut rt: Runtime<i32, Body> = Runtime::new();
    let count = Signal::new(&mut rt, 0);
    let order = Rc::new(RefCell::new(Vec::new()));
    for tag in [1, 2] {
        let order_clone = Rc::clone(&order);
        Effect::new(
            &mut rt,
            body(move |rt| {
                let _ = count.get(rt);
                order_clone.borrow_mut().push(tag);
                None
            }),
        );
    }
    order.borrow_mut().clear();
    count.set(&mut rt, 1);
    assert_eq!(*order.borrow(), vec![2, 1]);
}

#[test]
fn memo_propagates_to_dependent_effect() {
    let mut rt: Runtime<i32, Body> = Runtime::new();
    let count = Signal::new(&mut rt, 1);
    let tripled = derived(&mut rt, body(move |rt| Some(count.get(rt) * 3)));
    let seen = Rc::new(Cell::new(0));
    let seen_clone = Rc::clone(&seen);
    Effect::new(
        &mut rt,
        body(move |rt| {
            seen_clone.set(tripled.get(rt).unwrap());
            None
        }),
    );
    assert_eq!(seen.get(), 3);
    count.set(&mut rt, 4);
    assert_eq!(seen.get(), 12);
}

#[test]
fn memo_without_value_reports_missing() {
    let mut rt: Runtime<i32, Body> = Runtime::new();
    let empty = Memo::new(&mut rt, body(|_| None));
    assert_eq!(empty.get(&mut rt), Err(ReactiveError::MemoValueMissing));
}

#[test]
fn with_reads_without_cloning() {
    let mut rt: Runtime<i32, Body> = Runtime::new();
    let s = Signal::new(&mut rt, 21);
    assert_eq!(s.with(&mut rt, |v| v * 2), 42);
}

#[test]
fn scope_disposes_its_effects() {
    let mut rt: Runtime<i32, Body> = Runtime::new();
    let count = Signal::new(&mut rt, 0);
    let runs = Rc::new(Cell::new(0));
    let runs_clone = Rc::clone(&runs);
    let mut scope = Scope::new();
    let made = scope.run(
        &mut rt,
        body(move |_| Some(7)),
    );
    assert_eq!(made, Some(7));
    let effect = Effect::new(
        &mut rt,
        body(move |rt| {
            let _ = count.get(rt);
            runs_clone.set(runs_clone.get() + 1);
            None
        }),
    );
    scope.add_effect(effect);
    scope.dispose(&mut rt);
    count.set(&mut rt, 3);
    assert_eq!(runs.get(), 1);
}

#[test]
fn writes_inside_an_effect_reach_dependent_effects() {
    let mut rt: Runtime<i32, Body> = Runtime::new();
    let x = Signal::new(&mut rt, 1);
    let y = Signal::new(&mut rt, 0);
    let seen = Rc::new(Cell::new(0));
    let seen_clone = Rc::clone(&seen);
    Effect::new(
        &mut rt,
        body(move |rt| {
            seen_clone.set(y.get(rt));
            None
        }),
    );
    Effect::new(
        &mut rt,
        body(move |rt| {
            let v = x.get(rt);
            y.set(rt, v * 10);
            None
        }),
    );
    assert_eq!(seen.get(), 10);
    x.set(&mut rt, 4);
    assert_eq!(seen.get(), 40);
}

#[test]
fn an_effect_writing_its_own_source_does_not_rerun_itself() {
    let mut rt: Runtime<i32, Body> = Runtime::new();
    let x = Signal::new(&mut rt, 0);
    let runs = Rc::new(Cell::new(0));
    let runs_clone = Rc::clone(&runs);
    Effect::new(
        &mut rt,
        body(move |rt| {
            let v = x.get(rt);
            runs_clone.set(runs_clone.get() + 1);
            x.set(rt, v + 1);
            None
        }),
    );
    assert_eq!(runs.get(), 1);
    x.set(&mut rt, 10);
    assert_eq!(runs.get(), 2);
    assert_eq!(x.get(&mut rt), 11);
}
