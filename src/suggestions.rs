//! Suggestions for misspelt property names: edit distance, the closest
//! valid name, and the error texts that offer it.
use vstd::prelude::*;

verus! {

/// The smallest of three numbers.
pub open spec fn min3(x: nat, y: nat, z: nat) -> nat {
    if x <= y && x <= z {
        x
    } else if y <= z {
        y
    } else {
        z
    }
}

/// The Levenshtein distance of `a` and `b`: the fewest single-character
/// insertions, deletions and substitutions that turn one into the other.
pub open spec fn lev(a: Seq<char>, b: Seq<char>) -> nat
    decreases a.len() + b.len(),
{
    if a.len() == 0 {
        b.len()
    } else if b.len() == 0 {
        a.len()
    } else {
        min3(
            lev(a.drop_last(), b) + 1,
            lev(a, b.drop_last()) + 1,
            lev(a.drop_last(), b.drop_last()) + if a.last() == b.last() {
                0nat
            } else {
                1nat
            },
        )
    }
}

/// The distance is at most the longer length.
pub proof fn lemma_lev_bound(a: Seq<char>, b: Seq<char>)
    ensures
        lev(a, b) <= if a.len() >= b.len() {
            a.len()
        } else {
            b.len()
        },
    decreases a.len() + b.len(),
{
    if a.len() > 0 && b.len() > 0 {
        lemma_lev_bound(a.drop_last(), b.drop_last());
    }
}

/// The Levenshtein distance of `a` and `b`.
pub fn levenshtein_distance(a: &str, b: &str) -> (r: usize)
    requires
        a@.len() < usize::MAX,
        b@.len() < usize::MAX,
    ensures
        r == lev(a@, b@),
{
    let a_len = a.unicode_len();
    let b_len = b.unicode_len();
    if a_len == 0 {
        return b_len;
    }
    if b_len == 0 {
        return a_len;
    }
    let ghost sa = a@;
    let ghost sb = b@;
    // prev[j] is the distance of the first i - 1 characters of `a` and the
    // first j of `b`.
    let mut prev: Vec<usize> = Vec::new();
    let mut j: usize = 0;
    while j <= b_len
        invariant
            b_len == sb.len(),
            b_len < usize::MAX,
            j <= b_len + 1,
            prev@.len() == j,
            forall|k: int| 0 <= k < j ==> prev@[k] == lev(sa.subrange(0, 0), sb.subrange(0, k)),
        decreases b_len + 1 - j,
    {
        prev.push(j);
        j = j + 1;
    }
    let mut i: usize = 1;
    while i <= a_len
        invariant
            a_len == sa.len(),
            b_len == sb.len(),
            sa == a@,
            sb == b@,
            a_len < usize::MAX,
            b_len < usize::MAX,
            1 <= i <= a_len + 1,
            prev@.len() == b_len + 1,
            forall|k: int| 0 <= k <= b_len ==> prev@[k] == lev(sa.subrange(0, i - 1), sb.subrange(0, k)),
        decreases a_len + 1 - i,
    {
        let ai = a.get_char(i - 1);
        let mut cur: Vec<usize> = Vec::new();
        cur.push(i);
        assert(cur@[0] == lev(sa.subrange(0, i as int), sb.subrange(0, 0)));
        let mut j: usize = 1;
        while j <= b_len
            invariant
                a_len == sa.len(),
                b_len == sb.len(),
                sa == a@,
                sb == b@,
                a_len < usize::MAX,
                b_len < usize::MAX,
                1 <= i <= a_len,
                ai == sa[i - 1],
                1 <= j <= b_len + 1,
                prev@.len() == b_len + 1,
                cur@.len() == j,
                forall|k: int| 0 <= k <= b_len ==> prev@[k] == lev(sa.subrange(0, i - 1), sb.subrange(0, k)),
                forall|k: int| 0 <= k < j ==> cur@[k] == lev(sa.subrange(0, i as int), sb.subrange(0, k)),
            decreases b_len + 1 - j,
        {
            let bj = b.get_char(j - 1);
            let ghost pa = sa.subrange(0, i as int);
            let ghost pb = sb.subrange(0, j as int);
            proof {
                assert(pa.drop_last() =~= sa.subrange(0, i - 1));
                assert(pb.drop_last() =~= sb.subrange(0, j - 1));
                assert(pa.last() == ai);
                assert(pb.last() == bj);
                lemma_lev_bound(sa.subrange(0, i - 1), pb);
                lemma_lev_bound(pa, sb.subrange(0, j - 1));
                lemma_lev_bound(sa.subrange(0, i - 1), sb.subrange(0, j - 1));
            }
            let cost: usize = if ai == bj {
                0
            } else {
                1
            };
            let deletion = prev[j] + 1;
            let insertion = cur[j - 1] + 1;
            let substitution = prev[j - 1] + cost;
            let best = if deletion <= insertion && deletion <= substitution {
                deletion
            } else if insertion <= substitution {
                insertion
            } else {
                substitution
            };
            cur.push(best);
            j = j + 1;
        }
        prev = cur;
        i = i + 1;
    }
    assert(sa.subrange(0, a_len as int) =~= sa);
    assert(sb.subrange(0, b_len as int) =~= sb);
    prev[b_len]
}


/// The largest distance at which a name is still offered as a suggestion.
pub const MAX_SUGGESTION_DISTANCE: usize = 3;

/// Position `k` of `valid` is the closest name to `u`: within
/// [`MAX_SUGGESTION_DISTANCE`], no farther than any other name, and nearer
/// than every name before it.
pub open spec fn is_closest(u: Seq<char>, valid: Seq<Seq<char>>, k: int) -> bool {
    &&& 0 <= k < valid.len()
    &&& lev(u, valid[k]) <= MAX_SUGGESTION_DISTANCE
    &&& forall|i: int| 0 <= i < valid.len() ==> lev(u, valid[k]) <= lev(u, #[trigger] valid[i])
    &&& forall|i: int| 0 <= i < k ==> lev(u, valid[k]) < lev(u, #[trigger] valid[i])
}

/// The closest name to `u` among `vs`, if one is within
/// [`MAX_SUGGESTION_DISTANCE`].
pub open spec fn closest(u: Seq<char>, vs: Seq<Seq<char>>) -> Option<Seq<char>> {
    if exists|k: int| is_closest(u, vs, k) {
        Some(vs[choose|k: int| is_closest(u, vs, k)])
    } else {
        None
    }
}

/// At most one position is the closest.
pub proof fn lemma_closest_unique(u: Seq<char>, vs: Seq<Seq<char>>, k1: int, k2: int)
    requires
        is_closest(u, vs, k1),
        is_closest(u, vs, k2),
    ensures
        k1 == k2,
{
    if k1 < k2 {
        assert(lev(u, vs[k2]) < lev(u, vs[k1]));
        assert(lev(u, vs[k1]) <= lev(u, vs[k2]));
    } else if k2 < k1 {
        assert(lev(u, vs[k1]) < lev(u, vs[k2]));
        assert(lev(u, vs[k2]) <= lev(u, vs[k1]));
    }
}

/// The names of `valid` as character sequences.
pub open spec fn names(valid: Seq<&str>) -> Seq<Seq<char>> {
    Seq::new(valid.len(), |i: int| valid[i]@)
}

/// The valid name closest to `unknown`, if one is within
/// [`MAX_SUGGESTION_DISTANCE`]; of equally close names, the first.
pub fn find_closest_prop(unknown: &str, valid: &[&str]) -> (r: Option<String>)
    requires
        unknown@.len() < usize::MAX,
        forall|i: int| 0 <= i < valid@.len() ==> (#[trigger] valid@[i])@.len() < usize::MAX,
    ensures
        match r {
            Some(name) => closest(unknown@, names(valid@)) == Some(name@),
            None => closest(unknown@, names(valid@)) == None::<Seq<char>>,
        },
        r is None <==> forall|i: int| 0 <= i < valid@.len() ==> lev(unknown@, (#[trigger] valid@[i])@) > MAX_SUGGESTION_DISTANCE,
{
    let ghost vs = names(valid@);
    let mut best: Option<(usize, usize)> = None;
    let mut i: usize = 0;
    while i < valid.len()
        invariant
            i <= valid@.len(),
            vs == names(valid@),
            unknown@.len() < usize::MAX,
            forall|j: int| 0 <= j < valid@.len() ==> (#[trigger] valid@[j])@.len() < usize::MAX,
            match best {
                Some((k, d)) => {
                    &&& k < i
                    &&& d == lev(unknown@, vs[k as int])
                    &&& d <= MAX_SUGGESTION_DISTANCE
                    &&& forall|j: int| 0 <= j < i ==> d <= lev(unknown@, #[trigger] vs[j]) || lev(unknown@, vs[j]) > MAX_SUGGESTION_DISTANCE
                    &&& forall|j: int| 0 <= j < k ==> d < lev(unknown@, #[trigger] vs[j])
                },
                None => forall|j: int| 0 <= j < i ==> lev(unknown@, #[trigger] vs[j]) > MAX_SUGGESTION_DISTANCE,
            },
        decreases valid@.len() - i,
    {
        let d = levenshtein_distance(unknown, valid[i]);
        assert(vs[i as int] == valid@[i as int]@);
        if d <= MAX_SUGGESTION_DISTANCE {
            match best {
                Some((_, bd)) => {
                    if d < bd {
                        best = Some((i, d));
                    }
                },
                None => {
                    best = Some((i, d));
                },
            }
        }
        i = i + 1;
    }
    match best {
        Some((k, _)) => {
            assert(is_closest(unknown@, vs, k as int));
            proof {
                let c = choose|c: int| is_closest(unknown@, vs, c);
                lemma_closest_unique(unknown@, vs, c, k as int);
                assert(vs[k as int] == valid@[k as int]@);
            }
            Some(String::from_str(valid[k]))
        },
        None => {
            assert forall|j: int| 0 <= j < valid@.len() implies lev(unknown@, (#[trigger] valid@[j])@) > MAX_SUGGESTION_DISTANCE by {
                assert(vs[j] == valid@[j]@);
            }
            assert(!exists|k: int| is_closest(unknown@, vs, k));
            None
        },
    }
}

/// The names joined with `", "` between them.
pub open spec fn joined(names: Seq<Seq<char>>) -> Seq<char>
    decreases names.len(),
{
    if names.len() == 0 {
        Seq::empty()
    } else if names.len() == 1 {
        names[0]
    } else {
        joined(names.drop_last()) + ", "@ + names.last()
    }
}

/// The names of `valid` joined with `", "`.
fn join_names(valid: &[&str]) -> (r: String)
    ensures
        r@ == joined(names(valid@)),
{
    proof {
        reveal_strlit("");
    }
    let mut out = String::from_str("");
    let mut i: usize = 0;
    while i < valid.len()
        invariant
            i <= valid@.len(),
            out@ == joined(names(valid@).subrange(0, i as int)),
        decreases valid@.len() - i,
    {
        let ghost before = names(valid@).subrange(0, i as int);
        let ghost after = names(valid@).subrange(0, i + 1);
        assert(after.drop_last() =~= before);
        if i > 0 {
            out.append(", ");
        }
        out.append(valid[i]);
        proof {
            if i == 0 {
                assert(before.len() == 0);
                assert(out@ =~= after[0]);
            }
        }
        i = i + 1;
    }
    assert(names(valid@).subrange(0, valid@.len() as int) =~= names(valid@));
    out
}

/// The text of the error for property `unknown_prop`, unknown to
/// `component`: it offers the closest valid name, if any, and lists the
/// valid names, if there are any.
pub open spec fn unknown_prop_text(component: Seq<char>, unknown_prop: Seq<char>, suggestion: Option<Seq<char>>, valid: Seq<Seq<char>>) -> Seq<char> {
    "unknown property `"@ + unknown_prop + "` for `"@ + component + "` component"@ + match suggestion {
        Some(s) => "\n\nDid you mean `"@ + s + "`?"@,
        None => Seq::empty(),
    } + if valid.len() == 0 {
        Seq::empty()
    } else {
        "\n\nValid properties are: "@ + joined(valid)
    }
}

/// The error message for property `unknown_prop`, which `component` does
/// not have.
pub fn format_unknown_prop_error(component: &str, unknown_prop: &str, valid_props: &[&str]) -> (r: String)
    requires
        unknown_prop@.len() < usize::MAX,
        forall|i: int| 0 <= i < valid_props@.len() ==> (#[trigger] valid_props@[i])@.len() < usize::MAX,
    ensures
        r@ == unknown_prop_text(component@, unknown_prop@, closest(unknown_prop@, names(valid_props@)), names(valid_props@)),
{
    proof {
        reveal_strlit("");
    }
    let msg = String::from_str("unknown property `");
    let msg = msg.concat(unknown_prop);
    let msg = msg.concat("` for `");
    let msg = msg.concat(component);
    let mut msg = msg.concat("` component");
    let suggestion = find_closest_prop(unknown_prop, valid_props);
    match &suggestion {
        Some(name) => {
            msg.append("\n\nDid you mean `");
            msg.append(name.as_str());
            msg.append("`?");
        },
        None => {},
    }
    if valid_props.len() > 0 {
        msg.append("\n\nValid properties are: ");
        let list = join_names(valid_props);
        msg.append(list.as_str());
    }
    proof {
        let t = unknown_prop_text(component@, unknown_prop@, closest(unknown_prop@, names(valid_props@)), names(valid_props@));
        assert(msg@ =~= t);
    }
    msg
}

/// The error message for property `missing_prop`, which `component`
/// requires.
pub fn format_missing_prop_error(component: &str, missing_prop: &str) -> (r: String)
    ensures
        r@ == "missing required property `"@ + missing_prop@ + "` for `"@ + component@ + "` component"@,
{
    let msg = String::from_str("missing required property `");
    let msg = msg.concat(missing_prop);
    let msg = msg.concat("` for `");
    let msg = msg.concat(component);
    msg.concat("` component")
}

} // verus!
