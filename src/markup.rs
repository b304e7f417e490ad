//! Helpers for turning element markup into HTML.
use vstd::prelude::*;
use crate::text::{escaped, starts_with, str_eq};

verus! {

/// Whether `name` names an event handler property: it starts with `on`.
pub fn is_event_prop(name: &str) -> (r: bool)
    ensures
        r == (name@.len() >= 2 && name@[0] == 'o' && name@[1] == 'n'),
{
    proof {
        reveal_strlit("on");
    }
    let r = starts_with(name, "on");
    proof {
        if name@.len() >= 2 {
            assert(name@.subrange(0, 2)[0] == name@[0]);
            assert(name@.subrange(0, 2)[1] == name@[1]);
            if name@[0] == 'o' && name@[1] == 'n' {
                assert(name@.subrange(0, 2) =~= "on"@);
            }
        }
    }
    r
}

/// `s` with `&`, `<`, `>` and `"` replaced by their HTML entities.
pub fn html_escape(s: &str) -> (r: String)
    ensures
        r@ == escaped(s@),
{
    crate::text::html_escape(s)
}

/// The HTML elements that have no closing tag.
pub open spec fn void_elements() -> Seq<Seq<char>> {
    seq![
        "area"@, "base"@, "br"@, "col"@, "embed"@, "hr"@, "img"@, "input"@, "link"@, "meta"@,
        "param"@, "source"@, "track"@, "wbr"@,
    ]
}

/// Whether `tag` is an HTML element with no closing tag.
pub fn is_void_element(tag: &str) -> (r: bool)
    ensures
        r == void_elements().contains(tag@),
{
    let names: [&str; 14] = [
        "area", "base", "br", "col", "embed", "hr", "img", "input", "link", "meta", "param",
        "source", "track", "wbr",
    ];
    assert(names@.map_values(|n: &str| n@) =~= void_elements());
    let mut i: usize = 0;
    while i < 14
        invariant
            i <= 14,
            names@.map_values(|n: &str| n@) == void_elements(),
            forall|j: int| 0 <= j < i ==> void_elements()[j] != tag@,
        decreases 14 - i,
    {
        if str_eq(names[i], tag) {
            assert(void_elements()[i as int] == tag@);
            return true;
        }
        i = i + 1;
    }
    false
}

} // verus!
