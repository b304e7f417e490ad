//! The HTML of the developer tools panel.
use vstd::prelude::*;
use crate::devtools::{DevToolsPanel, DevToolsState};
use crate::hooks::{kind_name, HookMeta};
use crate::text::{decimal, decimal_text};

verus! {

/// The extra style of a tab button: highlighted when its tab is shown.
pub open spec fn tab_style(active: bool) -> Seq<char> {
    if active {
        "background: #2a2a2a;"@
    } else {
        Seq::empty()
    }
}

/// The extra style of the inspect button: highlighted in inspect mode.
pub open spec fn inspect_style(on: bool) -> Seq<char> {
    if on {
        "background: #4a90d9; color: white;"@
    } else {
        Seq::empty()
    }
}

/// The panel frame of width `width` around `content`, with the tab shown
/// and the inspect mode marked.
pub open spec fn overlay_html(width: u32, panel: DevToolsPanel, inspect: bool, content: Seq<char>) -> Seq<char> {
    "<div id=\"rinch-devtools\" style=\"position: fixed; right: 0; top: 0; bottom: 0; width: "@
        + decimal(width as nat)
        + "px; background: #1e1e1e; color: #d4d4d4; font-family: 'Consolas', 'Monaco', monospace; font-size: 12px; border-left: 1px solid #3c3c3c; display: flex; flex-direction: column; z-index: 999999;\"><div style=\"display: flex; background: #252525; border-bottom: 1px solid #3c3c3c;\"><button data-devtools-panel=\"elements\" style=\"flex: 1; padding: 8px; border: none; color: #d4d4d4; cursor: pointer; "@
        + tab_style(panel == DevToolsPanel::Elements)
        + "\">Elements</button><button data-devtools-panel=\"styles\" style=\"flex: 1; padding: 8px; border: none; color: #d4d4d4; cursor: pointer; "@
        + tab_style(panel == DevToolsPanel::Styles)
        + "\">Styles</button><button data-devtools-panel=\"hooks\" style=\"flex: 1; padding: 8px; border: none; color: #d4d4d4; cursor: pointer; "@
        + tab_style(panel == DevToolsPanel::Hooks)
        + "\">Hooks</button></div><div style=\"padding: 4px 8px; background: #252525; border-bottom: 1px solid #3c3c3c; display: flex; gap: 8px;\"><button data-devtools-inspect style=\"padding: 4px 8px; border: 1px solid #3c3c3c; border-radius: 3px; background: #2d2d2d; color: #d4d4d4; cursor: pointer; "@
        + inspect_style(inspect)
        + "\">Inspect</button></div><div style=\"flex: 1; overflow: auto; padding: 8px;\">"@
        + content
        + "</div></div>"@
}

/// The element tree tab: the selected node, or how to select one.
pub open spec fn elements_panel_html(selected: Option<usize>) -> Seq<char> {
    "<div><div style=\"font-weight: bold; margin-bottom: 8px; color: #dcdcaa;\">DOM Tree</div>"@
        + match selected {
            Some(n) =>
                "<div style=\"margin-bottom: 12px; padding: 8px; background: #2d2d2d; border-radius: 4px;\"><div style=\"color: #569cd6;\">Selected: Node #"@
                    + decimal(n as nat) + "</div></div>"@,
            None =>
                "<div style=\"margin-bottom: 12px; color: #808080;\">Click an element to inspect it, or enable Inspect mode.</div>"@,
        }
        + "<div style=\"color: #808080;\">Use Alt+D to toggle layout debug overlay<br>Use Alt+H to toggle hover highlight<br>Use Alt+T to print Taffy tree to console</div></div>"@
}

/// The styles tab: which node the styles are of, or how to pick one.
pub open spec fn styles_panel_html(selected: Option<usize>) -> Seq<char> {
    match selected {
        Some(n) =>
            "<div><div style=\"font-weight: bold; margin-bottom: 8px; color: #dcdcaa;\">Computed Styles</div><div style=\"color: #808080;\">Styles for Node #"@
                + decimal(n as nat) + "<br>(Full style inspection coming soon)</div></div>"@,
        None =>
            "<div><div style=\"font-weight: bold; margin-bottom: 8px; color: #dcdcaa;\">Computed Styles</div><div style=\"color: #808080;\">Select an element to view its styles.</div></div>"@,
    }
}

/// One row of the hooks tab: the slot's position, kind and stored type.
pub open spec fn hook_row_html(i: nat, meta: HookMeta) -> Seq<char> {
    "<div style=\"padding: 6px 8px; background: #2d2d2d; border-radius: 4px; margin-bottom: 4px;\"><div style=\"color: #569cd6;\">#"@
        + decimal(i) + " "@ + kind_name(meta.hook_type)
        + "</div><div style=\"color: #808080; font-size: 11px;\">"@ + meta.value_type@ + "</div></div>"@
}

/// The rows of the first `n` slots.
pub open spec fn hook_rows_html(hooks: Seq<HookMeta>, n: nat) -> Seq<char>
    decreases n,
{
    if n == 0 {
        Seq::empty()
    } else {
        hook_rows_html(hooks, (n - 1) as nat) + hook_row_html((n - 1) as nat, hooks[n - 1])
    }
}

/// The hooks tab: a row per slot, or a note that there are none.
pub open spec fn hooks_panel_html(hooks: Seq<HookMeta>) -> Seq<char> {
    if hooks.len() == 0 {
        "<div><div style=\"font-weight: bold; margin-bottom: 8px; color: #dcdcaa;\">Hooks State</div><div style=\"color: #808080;\">No hooks registered.</div></div>"@
    } else {
        "<div><div style=\"font-weight: bold; margin-bottom: 8px; color: #dcdcaa;\">Hooks State ("@
            + decimal(hooks.len()) + " hooks)</div>"@ + hook_rows_html(hooks, hooks.len()) + "</div>"@
    }
}

/// The content of the tab `state` shows.
pub open spec fn panel_html(state: DevToolsState, hooks: Seq<HookMeta>) -> Seq<char> {
    match state.active_panel {
        DevToolsPanel::Elements => elements_panel_html(state.selected_node),
        DevToolsPanel::Styles => styles_panel_html(state.selected_node),
        DevToolsPanel::Hooks => hooks_panel_html(hooks),
    }
}

/// The panel as HTML to append to the document; nothing while the panel is
/// hidden. `hooks` is what the hooks tab lists.
pub fn render_overlay(state: &DevToolsState, hooks: &Vec<HookMeta>) -> (r: String)
    ensures
        !state.visible ==> r@ == Seq::<char>::empty(),
        state.visible ==> r@ == overlay_html(state.panel_width, state.active_panel, state.inspect_mode, panel_html(*state, hooks@)),
{
    proof {
        reveal_strlit("");
    }
    if !state.visible {
        return String::from_str("");
    }
    let content = match state.active_panel {
        DevToolsPanel::Elements => render_elements_panel(state),
        DevToolsPanel::Styles => render_styles_panel(state),
        DevToolsPanel::Hooks => render_hooks_panel(hooks),
    };
    let s = String::from_str("<div id=\"rinch-devtools\" style=\"position: fixed; right: 0; top: 0; bottom: 0; width: ");
    let s = s.concat(decimal_text(state.panel_width as usize).as_str());
    let s = s.concat("px; background: #1e1e1e; color: #d4d4d4; font-family: 'Consolas', 'Monaco', monospace; font-size: 12px; border-left: 1px solid #3c3c3c; display: flex; flex-direction: column; z-index: 999999;\"><div style=\"display: flex; background: #252525; border-bottom: 1px solid #3c3c3c;\"><button data-devtools-panel=\"elements\" style=\"flex: 1; padding: 8px; border: none; color: #d4d4d4; cursor: pointer; ");
    let s = s.concat(tab_style_text(state.active_panel == DevToolsPanel::Elements));
    let s = s.concat("\">Elements</button><button data-devtools-panel=\"styles\" style=\"flex: 1; padding: 8px; border: none; color: #d4d4d4; cursor: pointer; ");
    let s = s.concat(tab_style_text(state.active_panel == DevToolsPanel::Styles));
    let s = s.concat("\">Styles</button><button data-devtools-panel=\"hooks\" style=\"flex: 1; padding: 8px; border: none; color: #d4d4d4; cursor: pointer; ");
    let s = s.concat(tab_style_text(state.active_panel == DevToolsPanel::Hooks));
    let s = s.concat("\">Hooks</button></div><div style=\"padding: 4px 8px; background: #252525; border-bottom: 1px solid #3c3c3c; display: flex; gap: 8px;\"><button data-devtools-inspect style=\"padding: 4px 8px; border: 1px solid #3c3c3c; border-radius: 3px; background: #2d2d2d; color: #d4d4d4; cursor: pointer; ");
    let s = s.concat(inspect_style_text(state.inspect_mode));
    let s = s.concat("\">Inspect</button></div><div style=\"flex: 1; overflow: auto; padding: 8px;\">");
    let s = s.concat(content.as_str());
    let s = s.concat("</div></div>");
    proof {
        assert(decimal(state.panel_width as usize as nat) == decimal(state.panel_width as nat));
    }
    s
}

fn tab_style_text(active: bool) -> (r: &'static str)
    ensures
        r@ == tab_style(active),
{
    proof {
        reveal_strlit("");
    }
    if active {
        "background: #2a2a2a;"
    } else {
        ""
    }
}

fn inspect_style_text(on: bool) -> (r: &'static str)
    ensures
        r@ == inspect_style(on),
{
    proof {
        reveal_strlit("");
    }
    if on {
        "background: #4a90d9; color: white;"
    } else {
        ""
    }
}

/// The element tree tab.
fn render_elements_panel(state: &DevToolsState) -> (r: String)
    ensures
        r@ == elements_panel_html(state.selected_node),
{
    let s = String::from_str("<div><div style=\"font-weight: bold; margin-bottom: 8px; color: #dcdcaa;\">DOM Tree</div>");
    let s = match state.selected_node {
        Some(n) => {
            let s = s.concat("<div style=\"margin-bottom: 12px; padding: 8px; background: #2d2d2d; border-radius: 4px;\"><div style=\"color: #569cd6;\">Selected: Node #");
            let s = s.concat(decimal_text(n).as_str());
            s.concat("</div></div>")
        },
        None => s.concat("<div style=\"margin-bottom: 12px; color: #808080;\">Click an element to inspect it, or enable Inspect mode.</div>"),
    };
    s.concat("<div style=\"color: #808080;\">Use Alt+D to toggle layout debug overlay<br>Use Alt+H to toggle hover highlight<br>Use Alt+T to print Taffy tree to console</div></div>")
}

/// The styles tab.
fn render_styles_panel(state: &DevToolsState) -> (r: String)
    ensures
        r@ == styles_panel_html(state.selected_node),
{
    match state.selected_node {
        Some(n) => {
            let s = String::from_str("<div><div style=\"font-weight: bold; margin-bottom: 8px; color: #dcdcaa;\">Computed Styles</div><div style=\"color: #808080;\">Styles for Node #");
            let s = s.concat(decimal_text(n).as_str());
            s.concat("<br>(Full style inspection coming soon)</div></div>")
        },
        None => String::from_str("<div><div style=\"font-weight: bold; margin-bottom: 8px; color: #dcdcaa;\">Computed Styles</div><div style=\"color: #808080;\">Select an element to view its styles.</div></div>"),
    }
}

/// The hooks tab, listing `hooks`.
fn render_hooks_panel(hooks: &Vec<HookMeta>) -> (r: String)
    ensures
        r@ == hooks_panel_html(hooks@),
{
    if hooks.len() == 0 {
        return String::from_str("<div><div style=\"font-weight: bold; margin-bottom: 8px; color: #dcdcaa;\">Hooks State</div><div style=\"color: #808080;\">No hooks registered.</div></div>");
    }
    let s = String::from_str("<div><div style=\"font-weight: bold; margin-bottom: 8px; color: #dcdcaa;\">Hooks State (");
    let s = s.concat(decimal_text(hooks.len()).as_str());
    let mut s = s.concat(" hooks)</div>");
    let ghost head = s@;
    let mut i: usize = 0;
    while i < hooks.len()
        invariant
            i <= hooks@.len(),
            s@ == head + hook_rows_html(hooks@, i as nat),
        decreases hooks@.len() - i,
    {
        let meta = hooks[i];
        s.append("<div style=\"padding: 6px 8px; background: #2d2d2d; border-radius: 4px; margin-bottom: 4px;\"><div style=\"color: #569cd6;\">#");
        s.append(decimal_text(i).as_str());
        s.append(" ");
        s.append(meta.hook_type.name());
        s.append("</div><div style=\"color: #808080; font-size: 11px;\">");
        s.append(meta.value_type);
        s.append("</div></div>");
        proof {
            assert(s@ =~= head + hook_rows_html(hooks@, (i + 1) as nat));
        }
        i = i + 1;
    }
    s.concat("</div>")
}

/// Style rules for the panel, for the document head.
pub fn devtools_styles() -> (r: &'static str)
    ensures
        r@ == "#rinch-devtools button:hover { background: #3a3a3a !important; } #rinch-devtools::-webkit-scrollbar { width: 8px; } #rinch-devtools::-webkit-scrollbar-track { background: #1e1e1e; } #rinch-devtools::-webkit-scrollbar-thumb { background: #3c3c3c; border-radius: 4px; }"@,
{
    "#rinch-devtools button:hover { background: #3a3a3a !important; } #rinch-devtools::-webkit-scrollbar { width: 8px; } #rinch-devtools::-webkit-scrollbar-track { background: #1e1e1e; } #rinch-devtools::-webkit-scrollbar-thumb { background: #3c3c3c; border-radius: 4px; }"
}

} // verus!
