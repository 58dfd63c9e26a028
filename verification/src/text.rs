//! Text helpers shared by the types that can be shown.

use vstd::prelude::*;

verus! {

/// A bulleted list: each line behind a dash and a space, the lines separated
/// by line feeds, with no line feed after the last.
pub open spec fn bullet_list(lines: Seq<Seq<char>>) -> Seq<char>
    decreases lines.len(),
{
    if lines.len() == 0 {
        Seq::empty()
    } else if lines.len() == 1 {
        "- "@ + lines[0]
    } else {
        bullet_list(lines.drop_last()) + "\n"@ + "- "@ + lines.last()
    }
}

/// The views of a sequence of strings, in the same order.
pub open spec fn string_views(lines: Seq<String>) -> Seq<Seq<char>> {
    Seq::new(lines.len(), |i: int| lines[i]@)
}

/// Writes `lines` as a bulleted list.
pub fn bullet_list_text(lines: &Vec<String>) -> (r: String)
    ensures
        r@ == bullet_list(string_views(lines@)),
{
    let ghost all = string_views(lines@);
    let mut out = String::new();
    let mut i: usize = 0;
    while i < lines.len()
        invariant
            i <= lines.len(),
            all == string_views(lines@),
            out@ == bullet_list(all.take(i as int)),
        decreases lines.len() - i,
    {
        proof {
            let next = all.take(i + 1);
            assert(next.drop_last() == all.take(i as int));
        }
        if i > 0 {
            out.append("\n");
        }
        out.append("- ");
        out.append(lines[i].as_str());
        i += 1;
    }
    assert(all.take(i as int) == all);
    out
}

} // verus!
