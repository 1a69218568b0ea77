//! Text helpers shared by the diagnostics of the crate.

use itertools::Itertools;
use vstd::prelude::*;

verus! {

/// The items of `items`, each followed by `sep` except the last.
pub open spec fn joined(items: Seq<Seq<char>>, sep: Seq<char>) -> Seq<char>
    decreases items.len(),
{
    if items.len() == 0 {
        Seq::empty()
    } else if items.len() == 1 {
        items[0]
    } else {
        joined(items.drop_last(), sep) + sep + items.last()
    }
}

/// The views of the strings of `items`, in order.
pub open spec fn views(items: Seq<String>) -> Seq<Seq<char>> {
    Seq::new(items.len(), |i: int| items[i]@)
}

/// Calls `itertools::Itertools::join` on the strings of `items`.
///
/// Trusted: the result is the items in order with `sep` between each two
/// neighbours; it is empty for no items. Each item is written as it stands,
/// since a `String` displays as its own text.
#[verifier::external_body]
pub(crate) fn join_texts(items: &Vec<String>, sep: &str) -> (out: String)
    ensures
        out@ == joined(views(items@), sep@),
{
    items.iter().join(sep)
}

/// `text` between two backticks.
pub open spec fn quoted(text: Seq<char>) -> Seq<char> {
    seq!['`'] + text + seq!['`']
}

/// Puts `text` between two backticks.
pub fn quote(text: &str) -> (out: String)
    ensures
        out@ == quoted(text@),
{
    proof {
        reveal_strlit("`");
    }
    let mut out = String::from_str("`");
    assert(out@ =~= seq!['`']);
    out.append(text);
    out.append("`");
    assert(out@ =~= quoted(text@));
    out
}

} // verus!
