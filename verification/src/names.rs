//! Lists of names in which a name is known by its position.

use crate::span::{lemma_span, lemma_span_props, span};
use crate::text::same_text;
use vstd::prelude::*;

verus! {

/// The test for a name to be another than `name`.
pub open spec fn differs_from(name: Seq<char>) -> spec_fn(Seq<char>) -> bool {
    |n: Seq<char>| n != name
}

/// The position of `name` among `names`, or their number where it is not among them.
pub open spec fn position_of(names: Seq<Seq<char>>, name: Seq<char>) -> nat {
    span(names, differs_from(name))
}

/// No name stands twice.
pub open spec fn distinct(names: Seq<Seq<char>>) -> bool {
    forall|i: int, j: int| 0 <= i < j < names.len() ==> names[i] != names[j]
}

/// The position of `name` in the list, if it is there.
pub fn find_name(names: &Vec<String>, name: &str) -> (at: Option<usize>)
    ensures
        match at {
            Some(i) => i == position_of(names.deep_view(), name@) && i < names.len(),
            None => position_of(names.deep_view(), name@) == names.len(),
        },
{
    let ghost all = names.deep_view();
    let mut i: usize = 0;
    while i < names.len()
        invariant
            i <= names.len(),
            all == names.deep_view(),
            forall|k: int| 0 <= k < i ==> #[trigger] all[k] != name@,
        decreases names.len() - i,
    {
        if same_text(names[i].as_str(), name) {
            proof {
                lemma_span(all, differs_from(name@), i as int);
            }
            return Some(i);
        }
        i += 1;
    }
    proof {
        lemma_span(all, differs_from(name@), i as int);
    }
    None
}

/// The position of `name` in the list, to which the name is appended where it is not
/// there yet, and whether it was appended.
pub fn intern_name(names: &mut Vec<String>, name: &str) -> (out: (usize, bool))
    ensures
        out.0 == position_of(old(names).deep_view(), name@),
        out.1 == (out.0 == old(names).len()),
        final(names).deep_view() == (if out.1 {
            old(names).deep_view().push(name@)
        } else {
            old(names).deep_view()
        }),
        final(names).deep_view()[out.0 as int] == name@,
        distinct(old(names).deep_view()) ==> distinct(final(names).deep_view()),
{
    let ghost before = names.deep_view();
    proof {
        lemma_span_props(before, differs_from(name@));
    }
    match find_name(names, name) {
        Some(id) => (id, false),
        None => {
            let id = names.len();
            names.push(String::from_str(name));
            proof {
                let after = names.deep_view();
                assert(after =~= before.push(name@));
                if distinct(before) {
                    assert forall|i: int, j: int| 0 <= i < j < after.len() implies after[i]
                        != after[j] by {
                    }
                }
            }
            (id, true)
        },
    }
}

/// In a list, two names at the same position are the same name.
pub proof fn lemma_ids_tell_names_apart(names: Seq<Seq<char>>, a: Seq<char>, b: Seq<char>)
    requires
        position_of(names, a) < names.len(),
        position_of(names, a) == position_of(names, b),
    ensures
        a == b,
{
    lemma_span_props(names, differs_from(a));
    lemma_span_props(names, differs_from(b));
}

/// Positions are stable: a name that the list holds keeps its position when the list
/// grows at its end.
pub proof fn lemma_position_stable(names: Seq<Seq<char>>, more: Seq<Seq<char>>, name: Seq<char>)
    requires
        position_of(names, name) < names.len(),
    ensures
        position_of(names + more, name) == position_of(names, name),
{
    let at = position_of(names, name) as int;
    let all = names + more;
    lemma_span_props(names, differs_from(name));
    lemma_span(all, differs_from(name), at);
}

} // verus!
