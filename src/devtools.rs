//! State of the developer tools panel: visibility, inspect mode, the
//! selected node and the active tab.
use vstd::prelude::*;

verus! {

/// The tab shown in the developer tools panel.
#[derive(Debug, Clone, Copy, PartialEq, Eq, Structural, Default)]
pub enum DevToolsPanel {
    /// The element tree.
    #[default]
    Elements,
    /// Computed styles of the selected element.
    Styles,
    /// The hook slots.
    Hooks,
}

/// The state of the developer tools panel.
#[derive(Debug, Clone, Copy, PartialEq, Eq, Structural, Default)]
pub struct DevToolsState {
    /// Whether the panel is shown.
    pub visible: bool,
    /// The selected node, if any.
    pub selected_node: Option<usize>,
    /// Whether clicking an element selects it.
    pub inspect_mode: bool,
    /// The tab shown.
    pub active_panel: DevToolsPanel,
    /// The panel's width in pixels.
    pub panel_width: u32,
}

/// The width a new panel has.
pub const DEFAULT_PANEL_WIDTH: u32 = 300;

impl DevToolsState {
    /// A hidden panel on the element tree, with nothing selected.
    pub fn new() -> (r: Self)
        ensures
            r == (DevToolsState {
                visible: false,
                selected_node: None,
                inspect_mode: false,
                active_panel: DevToolsPanel::Elements,
                panel_width: DEFAULT_PANEL_WIDTH,
            }),
    {
        DevToolsState {
            visible: false,
            selected_node: None,
            inspect_mode: false,
            active_panel: DevToolsPanel::Elements,
            panel_width: DEFAULT_PANEL_WIDTH,
        }
    }

    /// Shows a hidden panel or hides a shown one; hiding also ends inspect
    /// mode.
    pub fn toggle(&mut self)
        ensures
            final(self).visible == !old(self).visible,
            final(self).inspect_mode == (old(self).inspect_mode && !old(self).visible),
            final(self).selected_node == old(self).selected_node,
            final(self).active_panel == old(self).active_panel,
            final(self).panel_width == old(self).panel_width,
    {
        self.visible = !self.visible;
        if !self.visible {
            self.inspect_mode = false;
        }
    }

    /// Turns inspect mode on or off.
    pub fn toggle_inspect_mode(&mut self)
        ensures
            *final(self) == (DevToolsState { inspect_mode: !old(self).inspect_mode, ..*old(self) }),
    {
        self.inspect_mode = !self.inspect_mode;
    }

    /// Selects node `node_id`.
    pub fn select_node(&mut self, node_id: usize)
        ensures
            *final(self) == (DevToolsState { selected_node: Some(node_id), ..*old(self) }),
    {
        self.selected_node = Some(node_id);
    }

    /// Clears the selection.
    pub fn clear_selection(&mut self)
        ensures
            *final(self) == (DevToolsState { selected_node: None, ..*old(self) }),
    {
        self.selected_node = None;
    }

    /// Shows tab `panel`.
    pub fn set_panel(&mut self, panel: DevToolsPanel)
        ensures
            *final(self) == (DevToolsState { active_panel: panel, ..*old(self) }),
    {
        self.active_panel = panel;
    }
}

} // verus!
