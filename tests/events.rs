use rinch::events::{
    clear_handlers, dispatch_event, handler_count, html_escape_string, next_handler_id, register_handler,
    reset_handler_ids, EventHandlerId, EventRegistry,
};
use std::cell::Cell;
use std::rc::Rc;

type Callback = Box<dyn Fn()>;

#[test]
fn test_register_and_dispatch() {
    let mut reg: EventRegistry<Callback> = EventRegistry::new();
    clear_handlers(&mut reg);

    let called = Rc::new(Cell::new(false));
    let called_clone = called.clone();

    let id = register_handler(
        &mut reg,
        Box::new(move || {
            called_clone.set(true);
        }),
    );

    assert!(!called.get());
    assert!(dispatch_event(&reg, id));
    assert!(called.get());
}

#[test]
fn test_dispatch_unknown_id() {
    let mut reg: EventRegistry<Callback> = EventRegistry::new();
    clear_handlers(&mut reg);

    let unknown_id = EventHandlerId(99999);
    assert!(!dispatch_event(&reg, unknown_id));
}

#[test]
fn test_clear_handlers() {
    let mut reg: EventRegistry<Callback> = EventRegistry::new();
    clear_handlers(&mut reg);

    let id = register_handler(&mut reg, Box::new(|| {}));
    assert_eq!(handler_count(&reg), 1);

    clear_handlers(&mut reg);
    assert_eq!(handler_count(&reg), 0);
    assert!(!dispatch_event(&reg, id));
}

#[test]
fn ids_count_up_and_reset() {
    let mut reg: EventRegistry<Callback> = EventRegistry::new();
    assert_eq!(next_handler_id(&mut reg), EventHandlerId(0));
    assert_eq!(register_handler(&mut reg, Box::new(|| {})), EventHandlerId(1));
    reset_handler_ids(&mut reg);
    assert_eq!(register_handler(&mut reg, Box::new(|| {})), EventHandlerId(0));
    assert_eq!(handler_count(&reg), 2);
    assert_eq!(EventHandlerId(1234).to_text(), "1234");
}

#[test]
fn re_registering_an_id_replaces_its_callback() {
    let mut reg: EventRegistry<Callback> = EventRegistry::new();
    let hits = Rc::new(Cell::new(0));
    let first = hits.clone();
    let id = register_handler(&mut reg, Box::new(move || first.set(first.get() + 1)));
    reset_handler_ids(&mut reg);
    let second = hits.clone();
    let again = register_handler(&mut reg, Box::new(move || second.set(second.get() + 10)));
    assert_eq!(id, again);
    assert_eq!(handler_count(&reg), 1);
    assert!(dispatch_event(&reg, id));
    assert_eq!(hits.get(), 10);
}

#[test]
fn escapes_html_specials() {
    assert_eq!(html_escape_string("<a href=\"x\">&</a>"), "&lt;a href=&quot;x&quot;&gt;&amp;&lt;/a&gt;");
    assert_eq!(html_escape_string("plain"), "plain");
    assert_eq!(html_escape_string(""), "");
}
