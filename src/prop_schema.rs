//! Which properties each built-in component accepts, and which it requires.
use vstd::prelude::*;
use crate::text::str_eq;

verus! {

/// One property of a component: its name and whether it must be given.
#[derive(Clone, Copy, Debug)]
pub struct PropSchema {
    /// The property name.
    pub name: &'static str,
    /// Whether the property is required.
    pub required: bool,
}

impl PropSchema {
    /// A property named `name`, required or not.
    pub fn new(name: &'static str, required: bool) -> (r: Self)
        ensures
            r.name == name,
            r.required == required,
    {
        PropSchema { name, required }
    }

    /// An optional property named `name`.
    pub fn optional(name: &'static str) -> (r: Self)
        ensures
            r.name == name,
            !r.required,
    {
        Self::new(name, false)
    }

    /// A required property named `name`.
    pub fn required(name: &'static str) -> (r: Self)
        ensures
            r.name == name,
            r.required,
    {
        Self::new(name, true)
    }
}

/// The properties of the component named `c`, as (name, required) pairs,
/// if `c` is a built-in component.
pub open spec fn schema_of(c: Seq<char>) -> Option<Seq<(Seq<char>, bool)>> {
    if c == "Window"@ {
        Some(
            seq![
                ("title"@, false),
                ("width"@, false),
                ("height"@, false),
                ("x"@, false),
                ("y"@, false),
                ("borderless"@, false),
                ("resizable"@, false),
                ("transparent"@, false),
                ("always_on_top"@, false),
                ("visible"@, false),
            ],
        )
    } else if c == "AppMenu"@ {
        Some(seq![("native"@, false)])
    } else if c == "Menu"@ {
        Some(seq![("label"@, true)])
    } else if c == "MenuItem"@ {
        Some(
            seq![
                ("label"@, true),
                ("shortcut"@, false),
                ("enabled"@, false),
                ("checked"@, false),
                ("onclick"@, false),
            ],
        )
    } else {
        None
    }
}

/// `props` as (name, required) pairs.
pub open spec fn pairs(props: Seq<PropSchema>) -> Seq<(Seq<char>, bool)> {
    Seq::new(props.len(), |i: int| (props[i].name@, props[i].required))
}

/// The names of `props` whose flag is set, in order.
pub open spec fn required_names(props: Seq<(Seq<char>, bool)>) -> Seq<Seq<char>>
    decreases props.len(),
{
    if props.len() == 0 {
        Seq::empty()
    } else if props.last().1 {
        required_names(props.drop_last()).push(props.last().0)
    } else {
        required_names(props.drop_last())
    }
}

/// The names of `props`, in order.
pub open spec fn all_names(props: Seq<(Seq<char>, bool)>) -> Seq<Seq<char>> {
    Seq::new(props.len(), |i: int| props[i].0)
}

/// The views of `names`.
pub open spec fn name_views(names: Seq<&'static str>) -> Seq<Seq<char>> {
    Seq::new(names.len(), |i: int| names[i]@)
}

/// The properties of `component`, if it is a built-in component.
pub fn get_valid_props(component: &str) -> (r: Option<Vec<PropSchema>>)
    ensures
        match r {
            Some(v) => schema_of(component@) == Some(pairs(v@)),
            None => schema_of(component@) is None,
        },
{
    if str_eq(component, "Window") {
        let v = vec![
            PropSchema::optional("title"),
            PropSchema::optional("width"),
            PropSchema::optional("height"),
            PropSchema::optional("x"),
            PropSchema::optional("y"),
            PropSchema::optional("borderless"),
            PropSchema::optional("resizable"),
            PropSchema::optional("transparent"),
            PropSchema::optional("always_on_top"),
            PropSchema::optional("visible"),
        ];
        assert(pairs(v@) =~= schema_of(component@)->0);
        Some(v)
    } else if str_eq(component, "AppMenu") {
        let v = vec![PropSchema::optional("native")];
        assert(pairs(v@) =~= schema_of(component@)->0);
        Some(v)
    } else if str_eq(component, "Menu") {
        let v = vec![PropSchema::required("label")];
        assert(pairs(v@) =~= schema_of(component@)->0);
        Some(v)
    } else if str_eq(component, "MenuItem") {
        let v = vec![
            PropSchema::required("label"),
            PropSchema::optional("shortcut"),
            PropSchema::optional("enabled"),
            PropSchema::optional("checked"),
            PropSchema::optional("onclick"),
        ];
        assert(pairs(v@) =~= schema_of(component@)->0);
        Some(v)
    } else {
        None
    }
}

/// The names of the required properties of `component`; none for a
/// component that is not built in.
pub fn get_required_props(component: &str) -> (r: Vec<&'static str>)
    ensures
        name_views(r@) == match schema_of(component@) {
            Some(props) => required_names(props),
            None => Seq::empty(),
        },
{
    let mut out: Vec<&'static str> = Vec::new();
    match get_valid_props(component) {
        Some(props) => {
            let mut i: usize = 0;
            while i < props.len()
                invariant
                    i <= props@.len(),
                    name_views(out@) == required_names(pairs(props@).subrange(0, i as int)),
                decreases props@.len() - i,
            {
                let p = props[i];
                assert(pairs(props@).subrange(0, i + 1).drop_last() =~= pairs(props@).subrange(0, i as int));
                if p.required {
                    out.push(p.name);
                }
                assert(name_views(out@) =~= required_names(pairs(props@).subrange(0, i + 1)));
                i = i + 1;
            }
            assert(pairs(props@).subrange(0, props@.len() as int) =~= pairs(props@));
        },
        None => {
            assert(name_views(out@) =~= Seq::<Seq<char>>::empty());
        },
    }
    out
}

/// Whether `component` accepts `prop_name`. A component that is not built
/// in accepts every name.
pub fn is_valid_prop(component: &str, prop_name: &str) -> (r: bool)
    ensures
        r == match schema_of(component@) {
            Some(props) => exists|i: int| 0 <= i < props.len() && props[i].0 == prop_name@,
            None => true,
        },
{
    match get_valid_props(component) {
        Some(props) => {
            let mut i: usize = 0;
            while i < props.len()
                invariant
                    i <= props@.len(),
                    schema_of(component@) == Some(pairs(props@)),
                    forall|j: int| 0 <= j < i ==> pairs(props@)[j].0 != prop_name@,
                decreases props@.len() - i,
            {
                if str_eq(props[i].name, prop_name) {
                    assert(pairs(props@)[i as int].0 == prop_name@);
                    assert(schema_of(component@)->0[i as int].0 == prop_name@);
                    return true;
                }
                i = i + 1;
            }
            false
        },
        None => true,
    }
}

/// The names of the properties of `component`; none for a component that
/// is not built in.
pub fn get_prop_names(component: &str) -> (r: Vec<&'static str>)
    ensures
        name_views(r@) == match schema_of(component@) {
            Some(props) => all_names(props),
            None => Seq::empty(),
        },
{
    let mut out: Vec<&'static str> = Vec::new();
    match get_valid_props(component) {
        Some(props) => {
            let mut i: usize = 0;
            while i < props.len()
                invariant
                    i <= props@.len(),
                    out@.len() == i,
                    name_views(out@) == all_names(pairs(props@)).subrange(0, i as int),
                decreases props@.len() - i,
            {
                let ghost before = out@;
                out.push(props[i].name);
                assert(forall|j: int| 0 <= j < i ==> out@[j] == before[j]);
                assert(name_views(out@) =~= all_names(pairs(props@)).subrange(0, i + 1));
                i = i + 1;
            }
            assert(all_names(pairs(props@)).subrange(0, props@.len() as int) =~= all_names(pairs(props@)));
        },
        None => {
            assert(name_views(out@) =~= Seq::<Seq<char>>::empty());
        },
    }
    out
}

} // verus!
