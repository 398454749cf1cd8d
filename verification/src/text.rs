//! Strings as sequences of characters: the helpers that the rest of the
//! library states its contracts with.

use vstd::prelude::*;

verus! {

/// The texts of a sequence of strings.
pub open spec fn texts(v: Seq<String>) -> Seq<Seq<char>> {
    v.map_values(|s: String| s@)
}

/// The parts joined into one text, with `separator` between neighbours.
pub open spec fn joined_by(parts: Seq<Seq<char>>, separator: Seq<char>) -> Seq<char>
    decreases parts.len(),
{
    if parts.len() == 0 {
        Seq::empty()
    } else if parts.len() == 1 {
        parts[0]
    } else {
        joined_by(parts.drop_last(), separator) + separator + parts.last()
    }
}

/// Joining one more part: the first `k + 1` parts are the first `k`, the
/// separator, and part `k`; the first one alone is itself.
pub proof fn lemma_joined_step(parts: Seq<Seq<char>>, separator: Seq<char>, k: int)
    requires
        0 <= k < parts.len(),
    ensures
        joined_by(parts.take(k + 1), separator) == if k == 0 {
            parts[0]
        } else {
            joined_by(parts.take(k), separator) + separator + parts[k]
        },
{
    let front = parts.take(k + 1);
    assert(front.last() == parts[k]);
    assert(front.drop_last() =~= parts.take(k));
    if k == 0 {
        assert(front[0] == parts[0]);
    }
}

/// Whether two strings hold the same text.
pub fn same_text(a: &str, b: &str) -> (r: bool)
    ensures
        r == (a@ == b@),
{
    a.to_owned() == b.to_owned()
}

/// Joins the parts with `separator` between neighbours.
pub fn join_by(parts: &Vec<String>, separator: &str) -> (r: String)
    ensures
        r@ == joined_by(texts(parts@), separator@),
{
    let ghost all = texts(parts@);
    let mut out = String::new();
    let mut k: usize = 0;
    proof {
        assert(all.take(0) =~= Seq::<Seq<char>>::empty());
    }
    while k < parts.len()
        invariant
            k <= parts.len(),
            all == texts(parts@),
            out@ == joined_by(all.take(k as int), separator@),
        decreases parts.len() - k,
    {
        proof {
            lemma_joined_step(all, separator@, k as int);
        }
        if k > 0 {
            out.append(separator);
        }
        out.append(parts[k].as_str());
        k += 1;
    }
    proof {
        assert(all.take(k as int) =~= all);
    }
    out
}

} // verus!
