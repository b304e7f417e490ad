use rinch::clipboard::{ClipboardError, ImageData};
use rinch::devtools::{DevToolsPanel, DevToolsState};
use rinch::element::{children_to_html, extract_windows, AppMenuProps, Element, MenuItemCallback, MenuItemProps, WindowProps};
use rinch::hooks::{begin_render, end_render, get_hooks_debug_info, use_ref, HookRegistry};
use rinch::hot_reload::{ChangeKind, HotReloadConfig};
use rinch::markup::{html_escape, is_event_prop, is_void_element};
use rinch::prop_schema::{get_prop_names, get_required_props, get_valid_props, is_valid_prop, PropSchema};
use rinch::render::{request_render, RenderContext};
use rinch::text::decimal_text;
use rinch::tray::{TrayError, TrayMenuItem};
use std::cell::Cell;
use std::rc::Rc;

#[test]
fn schemas_of_built_in_components() {
    assert_eq!(get_valid_props("Window").unwrap().len(), 10);
    assert_eq!(get_valid_props("AppMenu").unwrap()[0].name, "native");
    assert!(get_valid_props("Div").is_none());
    assert_eq!(get_required_props("MenuItem"), vec!["label"]);
    assert_eq!(get_required_props("Window"), Vec::<&str>::new());
    assert_eq!(get_required_props("Nope"), Vec::<&str>::new());
    assert_eq!(get_prop_names("MenuItem"), vec!["label", "shortcut", "enabled", "checked", "onclick"]);
    assert!(is_valid_prop("Window", "always_on_top"));
    assert!(!is_valid_prop("Menu", "shortcut"));
    assert!(is_valid_prop("Custom", "anything"));
    let p = PropSchema::required("label");
    assert!(p.required);
    assert!(!PropSchema::optional("x").required);
    assert_eq!(PropSchema::new("y", true).name, "y");
}

#[test]
fn markup_helpers() {
    assert!(is_event_prop("onclick"));
    assert!(!is_event_prop("o"));
    assert!(!is_event_prop("title"));
    assert!(is_void_element("br"));
    assert!(is_void_element("wbr"));
    assert!(!is_void_element("div"));
    assert_eq!(html_escape("a<b"), "a&lt;b");
    assert_eq!(decimal_text(0), "0");
    assert_eq!(decimal_text(907), "907");
}

#[test]
fn devtools_state_transitions() {
    let mut s = DevToolsState::new();
    assert!(!s.visible);
    assert_eq!(s.panel_width, 300);
    assert_eq!(s.active_panel, DevToolsPanel::Elements);
    s.toggle();
    assert!(s.visible);
    s.toggle_inspect_mode();
    assert!(s.inspect_mode);
    s.toggle();
    assert!(!s.visible);
    assert!(!s.inspect_mode);
    s.select_node(12);
    assert_eq!(s.selected_node, Some(12));
    s.clear_selection();
    assert_eq!(s.selected_node, None);
    s.set_panel(DevToolsPanel::Hooks);
    assert_eq!(s.active_panel, DevToolsPanel::Hooks);
}

#[test]
fn render_requests_are_sent_once_until_cleared() {
    let mut ctx = Some(RenderContext::new());
    assert!(request_render(&mut ctx));
    assert!(!request_render(&mut ctx));
    ctx.as_mut().unwrap().clear_render_flag();
    assert!(request_render(&mut ctx));
    let mut none: Option<RenderContext> = None;
    assert!(!request_render(&mut none));
}

#[test]
fn element_props_and_html() {
    let w = WindowProps::default();
    assert_eq!(w.title, "Rinch Window");
    assert_eq!((w.width, w.height), (800, 600));
    assert!(w.resizable && w.visible && !w.borderless);
    assert!(AppMenuProps::default().native);
    let item: MenuItemProps<fn()> = MenuItemProps::default();
    assert!(item.enabled && item.label.is_empty() && item.onclick.is_none());

    let hits = Rc::new(Cell::new(0));
    let h = hits.clone();
    let cb = MenuItemCallback::new(move || h.set(h.get() + 1));
    cb.invoke();
    assert_eq!(hits.get(), 1);

    let tree: Vec<Element<fn(), ()>> = vec![
        Element::Html("<p>a</p>".to_string()),
        Element::MenuSeparator,
        Element::Fragment(vec![Element::Html("<b>".to_string()), Element::Component(())]),
        Element::Html("c".to_string()),
    ];
    assert_eq!(children_to_html(&tree), "<p>a</p><b>c");
}

#[test]
fn tray_item_builder() {
    let item: TrayMenuItem<fn()> = TrayMenuItem::new("Quit".to_string());
    assert!(item.is_enabled_now());
    let item = item.enabled(false).on_click(|| {});
    assert!(!item.is_enabled_now());
    assert_eq!(item.label(), "Quit");
    assert_eq!(TrayError::MenuError("x".to_string()).message(), "menu error: x");
}

#[test]
fn clipboard_types() {
    let img = ImageData::new(2, 1, vec![0; 8]).into_owned();
    assert_eq!((img.width, img.height, img.bytes.len()), (2, 1, 8));
    assert_eq!(ClipboardError::ContentTypeMismatch.message(), "clipboard content type mismatch");
    assert_eq!(
        ClipboardError::AccessFailed("busy".to_string()).message(),
        "clipboard access failed: busy"
    );
}

#[test]
fn hot_reload_config_builders() {
    let c = HotReloadConfig::default();
    assert_eq!(c.watch_paths, vec!["src".to_string()]);
    assert_eq!(c.extensions, vec!["rs".to_string(), "css".to_string(), "html".to_string()]);
    assert_eq!(c.debounce_ms, 100);
    let c = HotReloadConfig::new(vec!["app".to_string()]).with_extensions(vec!["toml".to_string()]).with_debounce(250);
    assert_eq!(c.watch_paths, vec!["app".to_string()]);
    assert_eq!(c.extensions, vec!["toml".to_string()]);
    assert_eq!(c.debounce_ms, 250);
}

#[test]
fn overlay_is_empty_while_hidden() {
    let state = DevToolsState::new();
    assert_eq!(rinch::devtools_overlay::render_overlay(&state, &Vec::new()), "");
}

#[test]
fn overlay_shows_width_tab_and_selection() {
    let mut state = DevToolsState::new();
    state.toggle();
    state.select_node(42);
    let html = rinch::devtools_overlay::render_overlay(&state, &Vec::new());
    assert!(html.starts_with("<div id=\"rinch-devtools\""));
    assert!(html.contains("width: 300px;"));
    assert!(html.contains("Selected: Node #42"));
    assert!(html.contains("cursor: pointer; background: #2a2a2a;\">Elements</button>"));
    state.set_panel(DevToolsPanel::Styles);
    let html = rinch::devtools_overlay::render_overlay(&state, &Vec::new());
    assert!(html.contains("Styles for Node #42"));
}

#[test]
fn overlay_lists_hooks() {
    let mut reg: HookRegistry<i32, Box<dyn FnOnce()>> = HookRegistry::new();
    begin_render(&mut reg);
    let _ = use_ref(&mut reg, || 1).unwrap();
    end_render(&mut reg).unwrap();
    let mut state = DevToolsState::new();
    state.toggle();
    state.set_panel(DevToolsPanel::Hooks);
    let html = rinch::devtools_overlay::render_overlay(&state, &get_hooks_debug_info(&reg));
    assert!(html.contains("Hooks State (1 hooks)"));
    assert!(html.contains("#0 use_ref"));
    assert!(html.contains(">value</div>"));
    let none = rinch::devtools_overlay::render_overlay(&state, &Vec::new());
    assert!(none.contains("No hooks registered."));
    assert!(rinch::devtools_overlay::devtools_styles().contains("#rinch-devtools button:hover"));
}

#[test]
fn reload_only_for_watched_extensions_of_changed_files() {
    let c = HotReloadConfig::default();
    let rs = vec![None, Some("RS".to_string())];
    assert!(c.should_reload(ChangeKind::DataModified, &rs));
    assert!(c.should_reload(ChangeKind::Created, &rs));
    assert!(!c.should_reload(ChangeKind::Other, &rs));
    assert!(!c.should_reload(ChangeKind::DataModified, &vec![Some("toml".to_string()), None]));
    assert!(!c.should_reload(ChangeKind::Created, &Vec::new()));
}

#[test]
fn reload_waits_for_the_debounce() {
    let c = HotReloadConfig::default().with_debounce(100);
    assert!(!c.reload_due(1000, 1099));
    assert!(c.reload_due(1000, 1100));
    assert!(!c.reload_due(1000, 900));
    assert!(HotReloadConfig::default().with_debounce(0).reload_due(1000, 900));
}

#[test]
fn windows_are_extracted_in_order() {
    let mut second = WindowProps::default();
    second.title = "Second".to_string();
    let tree: Element<fn(), ()> = Element::Fragment(vec![
        Element::Window(WindowProps::default(), vec![Element::Html("<p>one</p>".to_string())]),
        Element::Html("stray".to_string()),
        Element::Fragment(vec![Element::Window(second, vec![Element::Html("two".to_string())])]),
    ]);
    let mut found = Vec::new();
    extract_windows(tree, &mut found);
    assert_eq!(found.len(), 2);
    assert_eq!(found[0].0.title, "Rinch Window");
    assert_eq!(found[0].1, "<p>one</p>");
    assert_eq!(found[1].0.title, "Second");
    assert_eq!(found[1].1, "two");
}
