//! The element tree a render function returns, and the properties of the
//! built-in components.
use vstd::prelude::*;

verus! {

/// Properties of a window.
#[derive(Debug, Clone)]
pub struct WindowProps {
    pub title: String,
    pub width: u32,
    pub height: u32,
    pub x: Option<i32>,
    pub y: Option<i32>,
    pub borderless: bool,
    pub resizable: bool,
    pub transparent: bool,
    pub always_on_top: bool,
    pub visible: bool,
}

impl Default for WindowProps {
    /// An 800 by 600 window, resizable and visible, placed by the system.
    fn default() -> (r: Self)
        ensures
            r.title@ == "Rinch Window"@,
            r.width == 800,
            r.height == 600,
            r.x is None,
            r.y is None,
            !r.borderless,
            r.resizable,
            !r.transparent,
            !r.always_on_top,
            r.visible,
    {
        WindowProps {
            title: String::from_str("Rinch Window"),
            width: 800,
            height: 600,
            x: None,
            y: None,
            borderless: false,
            resizable: true,
            transparent: false,
            always_on_top: false,
            visible: true,
        }
    }
}

/// Properties of the application menu.
#[derive(Debug, Clone, Copy)]
pub struct AppMenuProps {
    /// Whether the menu is a native one rather than HTML.
    pub native: bool,
}

impl Default for AppMenuProps {
    /// A native menu.
    fn default() -> (r: Self)
        ensures
            r.native,
    {
        AppMenuProps { native: true }
    }
}

/// Properties of a menu within the application menu.
#[derive(Debug, Clone)]
pub struct MenuProps {
    pub label: String,
}

/// The callback of a menu item.
#[derive(Clone)]
pub struct MenuItemCallback<F>(pub F);

impl<F: Fn()> MenuItemCallback<F> {
    /// A callback that calls `f`.
    pub fn new(f: F) -> (r: Self)
        ensures
            r.0 == f,
    {
        MenuItemCallback(f)
    }

    /// Calls the callback.
    pub fn invoke(&self)
        requires
            self.0.requires(()),
        ensures
            self.0.ensures((), ()),
    {
        (self.0)()
    }
}

/// Properties of a menu item.
#[derive(Clone)]
pub struct MenuItemProps<F> {
    pub label: String,
    pub shortcut: Option<String>,
    pub enabled: bool,
    pub checked: Option<bool>,
    /// What runs when the item is chosen.
    pub onclick: Option<MenuItemCallback<F>>,
}

impl<F> Default for MenuItemProps<F> {
    /// An enabled item with an empty label, no shortcut, no check mark and
    /// no callback.
    fn default() -> (r: Self)
        ensures
            r.label@ == Seq::<char>::empty(),
            r.shortcut is None,
            r.enabled,
            r.checked is None,
            r.onclick is None,
    {
        MenuItemProps { label: String::new(), shortcut: None, enabled: true, checked: None, onclick: None }
    }
}

/// A node of the element tree. `F` is the type of menu callbacks and `C`
/// the type of user components.
pub enum Element<F, C> {
    /// A native window.
    Window(WindowProps, Vec<Element<F, C>>),
    /// The application menu.
    AppMenu(AppMenuProps, Vec<Element<F, C>>),
    /// A menu within the application menu.
    Menu(MenuProps, Vec<Element<F, C>>),
    /// A menu item.
    MenuItem(MenuItemProps<F>),
    /// A separator line in a menu.
    MenuSeparator,
    /// HTML content.
    Html(String),
    /// A user component.
    Component(C),
    /// Several elements without a wrapper.
    Fragment(Vec<Element<F, C>>),
}

/// The HTML of `children`: the content of each HTML element, with
/// fragments flattened, in order; other elements contribute nothing.
pub open spec fn html_of<F, C>(children: Seq<Element<F, C>>) -> Seq<char>
    decreases children,
{
    if children.len() == 0 {
        Seq::empty()
    } else {
        html_of(children.drop_last()) + match children.last() {
            Element::Html(content) => content@,
            Element::Fragment(kids) => html_of(kids@),
            _ => Seq::empty(),
        }
    }
}

/// The HTML of `children`, as [`html_of`] gives it.
pub fn children_to_html<F, C>(children: &Vec<Element<F, C>>) -> (r: String)
    ensures
        r@ == html_of(children@),
    decreases children@,
{
    proof {
        reveal_strlit("");
    }
    let mut html = String::from_str("");
    let mut i: usize = 0;
    while i < children.len()
        invariant
            i <= children@.len(),
            html@ == html_of(children@.subrange(0, i as int)),
        decreases children@.len() - i,
    {
        assert(children@.subrange(0, i + 1).drop_last() =~= children@.subrange(0, i as int));
        assert(children@.subrange(0, i + 1).last() == children@[i as int]);
        match &children[i] {
            Element::Html(content) => {
                html.append(content.as_str());
            },
            Element::Fragment(kids) => {
                assert(decreases_to!(children@ => children@[i as int]));
                let inner = children_to_html(kids);
                html.append(inner.as_str());
            },
            _ => {},
        }
        i = i + 1;
    }
    assert(children@.subrange(0, children@.len() as int) =~= children@);
    html
}


/// A user-defined component: renders its properties into an element tree.
pub trait Component<F, C> {
    /// The properties the component takes.
    type Props;

    fn render(&self, props: &Self::Props) -> Element<F, C>;
}

/// A menu item's label and callback, as kept by a native menu.
pub struct MenuCallback<F> {
    pub label: String,
    /// What runs when the item is chosen.
    pub callback: Option<MenuItemCallback<F>>,
}


/// The windows of a rendered tree, in order: each window element with the
/// HTML of its children; fragments are searched, other elements skipped.
pub open spec fn windows_of<F, C>(e: Element<F, C>) -> Seq<(WindowProps, Seq<char>)>
    decreases e,
{
    match e {
        Element::Window(props, children) => seq![(props, html_of(children@))],
        Element::Fragment(children) => windows_in(children@),
        _ => Seq::empty(),
    }
}

/// The windows of each of `es`, in order.
pub open spec fn windows_in<F, C>(es: Seq<Element<F, C>>) -> Seq<(WindowProps, Seq<char>)>
    decreases es,
{
    if es.len() == 0 {
        Seq::empty()
    } else {
        windows_in(es.drop_last()) + windows_of(es.last())
    }
}

/// Appends the windows of `element` to `contents`, as [`windows_of`]
/// gives them.
pub fn extract_windows<F, C>(element: Element<F, C>, contents: &mut Vec<(WindowProps, String)>)
    ensures
        final(contents)@.len() == old(contents)@.len() + windows_of(element).len(),
        forall|i: int| 0 <= i < old(contents)@.len() ==> #[trigger] final(contents)@[i] == old(contents)@[i],
        forall|i: int|
            0 <= i < windows_of(element).len() ==> (#[trigger] final(contents)@[old(contents)@.len() + i]).0
                == windows_of(element)[i].0 && final(contents)@[old(contents)@.len() + i].1@ == windows_of(
                element,
            )[i].1,
    decreases element,
{
    let ghost whole = element;
    match element {
        Element::Window(props, children) => {
            let html = children_to_html(&children);
            contents.push((props, html));
        },
        Element::Fragment(children) => {
            let ghost all = children@;
            assert(forall|k: int| 0 <= k < all.len() ==> decreases_to!(whole => #[trigger] all[k]));
            let ghost start = contents@.len();
            let total = children.len();
            let mut rest = children;
            let mut i: usize = 0;
            while rest.len() > 0
                invariant
                    i <= all.len(),
                    all.len() == total,
                    whole == element,
                    forall|k: int| 0 <= k < all.len() ==> decreases_to!(whole => #[trigger] all[k]),
                    rest@ == all.subrange(i as int, all.len() as int),
                    start <= contents@.len(),
                    contents@.len() == start + windows_in(all.subrange(0, i as int)).len(),
                    forall|k: int| 0 <= k < start ==> #[trigger] contents@[k] == old(contents)@[k],
                    forall|k: int|
                        0 <= k < windows_in(all.subrange(0, i as int)).len() ==> (#[trigger] contents@[start + k]).0
                            == windows_in(all.subrange(0, i as int))[k].0 && contents@[start + k].1@ == windows_in(
                            all.subrange(0, i as int),
                        )[k].1,
                decreases rest@.len(),
            {
                let child = rest.remove(0);
                assert(child == all[i as int]);
                let ghost before = contents@;
                extract_windows(child, contents);
                proof {
                    let prev = all.subrange(0, i as int);
                    let next = all.subrange(0, i + 1);
                    assert(next.drop_last() =~= prev);
                    assert(next.last() == child);
                    assert(windows_in(next) == windows_in(prev) + windows_of(child));
                    let wp = windows_in(prev);
                    let wc = windows_of(child);
                    assert forall|k: int| 0 <= k < windows_in(next).len() implies (#[trigger] contents@[start + k]).0
                        == windows_in(next)[k].0 && contents@[start + k].1@ == windows_in(next)[k].1 by {
                        if k < wp.len() {
                            assert(contents@[start + k] == before[start + k]);
                        } else {
                            let j = k - wp.len();
                            assert(start + k == before.len() + j);
                        }
                    }
                }
                i = i + 1;
            }
            assert(all.subrange(0, all.len() as int) =~= all);
        },
        _ => {},
    }
}

} // verus!
