//! Items of the system tray menu and the tray's errors.
use vstd::prelude::*;

verus! {

/// What went wrong with the tray.
#[derive(Debug, Clone)]
pub enum TrayError {
    /// The tray icon could not be created.
    CreateFailed(String),
    /// The icon could not be loaded.
    IconLoadFailed(String),
    /// The menu could not be built.
    MenuError(String),
}

impl TrayError {
    /// A message describing the error.
    pub fn message(&self) -> (r: String)
        ensures
            r@ == match self {
                TrayError::CreateFailed(m) => "failed to create tray icon: "@ + m@,
                TrayError::IconLoadFailed(m) => "failed to load icon: "@ + m@,
                TrayError::MenuError(m) => "menu error: "@ + m@,
            },
    {
        match self {
            TrayError::CreateFailed(m) => String::from_str("failed to create tray icon: ").concat(m.as_str()),
            TrayError::IconLoadFailed(m) => String::from_str("failed to load icon: ").concat(m.as_str()),
            TrayError::MenuError(m) => String::from_str("menu error: ").concat(m.as_str()),
        }
    }
}

/// An item of the tray menu: a label, whether it can be chosen, and what
/// runs when it is.
pub struct TrayMenuItem<F> {
    label: String,
    enabled: bool,
    callback: Option<F>,
}

impl<F: Fn()> TrayMenuItem<F> {
    /// The label.
    pub closed spec fn label_view(&self) -> Seq<char> {
        self.label@
    }

    /// Whether the item can be chosen.
    pub closed spec fn is_enabled(&self) -> bool {
        self.enabled
    }

    /// The callback, if any.
    pub closed spec fn callback_view(&self) -> Option<F> {
        self.callback
    }

    /// An enabled item labelled `label`, with no callback.
    pub fn new(label: String) -> (r: Self)
        ensures
            r.label_view() == label@,
            r.is_enabled(),
            r.callback_view() is None,
    {
        TrayMenuItem { label, enabled: true, callback: None }
    }

    /// The item, enabled or not as `enabled` says.
    pub fn enabled(self, enabled: bool) -> (r: Self)
        ensures
            r.label_view() == self.label_view(),
            r.is_enabled() == enabled,
            r.callback_view() == self.callback_view(),
    {
        let mut item = self;
        item.enabled = enabled;
        item
    }

    /// The item, with `callback` run when it is chosen.
    pub fn on_click(self, callback: F) -> (r: Self)
        ensures
            r.label_view() == self.label_view(),
            r.is_enabled() == self.is_enabled(),
            r.callback_view() == Some(callback),
    {
        let mut item = self;
        item.callback = Some(callback);
        item
    }

    /// The label.
    pub fn label(&self) -> (r: &str)
        ensures
            r@ == self.label_view(),
    {
        self.label.as_str()
    }

    /// Whether the item can be chosen.
    pub fn is_enabled_now(&self) -> (r: bool)
        ensures
            r == self.is_enabled(),
    {
        self.enabled
    }
}

} // verus!
