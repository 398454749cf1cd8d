//! Relative paths as sequences of segments, and the chain of ancestors that
//! leads from the working directory up to a root.

use vstd::prelude::*;
use relative_path::PathExt;
use std::path::Path;
use crate::errors::RunnerError;
use crate::text::{join_by, joined_by, lemma_joined_step, same_text, texts};

verus! {

/// The error of `relative_path::PathExt::relative_to`, carried through as it
/// is: nothing is read from it.
#[verifier::external_type_specification]
#[verifier::external_body]
pub struct ExRelativeToError(relative_path::RelativeToError);

/// The segments of the relative path that leads from `base` to `target`, as
/// `relative_path::PathExt::relative_to` computes them under the path syntax
/// of the platform the library is built for; `None` where it reports an
/// error.
pub uninterp spec fn relative_components(target: Seq<char>, base: Seq<char>) -> Option<
    Seq<Seq<char>>,
>;

/// Whether `std::path::Path` holds two paths equal, which it decides segment
/// by segment under the platform's path syntax.
pub uninterp spec fn same_location(a: Seq<char>, b: Seq<char>) -> bool;

/// Calls `relative_path::PathExt::relative_to` on `target` with `base` as the
/// root, and hands out the segments of the relative path it built, each as a
/// string. Nothing is proved of the outside computation: the contract only
/// names its result, and says that an error is returned exactly where the
/// named result is `None`.
#[verifier::external_body]
fn relative_to(target: &str, base: &str) -> (r: Result<Vec<String>, relative_path::RelativeToError>)
    ensures
        r is Ok <==> relative_components(target@, base@) is Some,
        r is Ok ==> texts(r.unwrap()@) == relative_components(target@, base@).unwrap(),
{
    let rel = Path::new(target).relative_to(Path::new(base))?;
    Ok(rel.components().map(|c| c.as_str().to_string()).collect())
}

/// Compares two paths with `==` of `std::path::Path`. Nothing is proved of
/// the comparison: the contract only names its result.
#[verifier::external_body]
fn same_path(a: &str, b: &str) -> (r: bool)
    ensures
        r == same_location(a@, b@),
{
    Path::new(a) == Path::new(b)
}

/// Whether two paths denote the same directory: they are the same text, or
/// the platform's path comparison holds them equal.
pub open spec fn same_directory(a: Seq<char>, b: Seq<char>) -> bool {
    a == b || same_location(a, b)
}

/// Decides `same_directory`.
pub fn is_same_directory(a: &str, b: &str) -> (r: bool)
    ensures
        r == same_directory(a@, b@),
{
    same_text(a, b) || same_path(a, b)
}

/// The segments of the path that leads from `base` to `target`.
///
/// Fails with `PathRelativization`, naming both paths, exactly where no such
/// relative path exists.
pub fn relativize(target: &str, base: &str) -> (r: Result<Vec<String>, RunnerError>)
    ensures
        match relative_components(target@, base@) {
            Some(segments) => r is Ok && texts(r.unwrap()@) == segments,
            None => r matches Err(RunnerError::PathRelativization { target: t, base: b })
                && t@ == target@ && b@ == base@,
        },
{
    match relative_to(target, base) {
        Ok(segments) => Ok(segments),
        Err(_) => Err(
            RunnerError::PathRelativization { target: target.to_owned(), base: base.to_owned() },
        ),
    }
}

/// The segments joined into one path, with `/` between neighbours.
pub open spec fn joined(segments: Seq<Seq<char>>) -> Seq<char> {
    joined_by(segments, "/"@)
}

/// The `k`-th ancestor on the way along `segments`: `.` for the start, and
/// for `k > 0` the path made of the first `k` segments.
pub open spec fn chain_entry(segments: Seq<Seq<char>>, k: int) -> Seq<char> {
    if k <= 0 {
        "."@
    } else {
        joined(segments.take(k))
    }
}

/// The ancestor chain of a relative path: `.` first, then each prefix of the
/// path, shortest first, and the whole path last.
pub open spec fn ancestor_chain_of(segments: Seq<Seq<char>>) -> Seq<Seq<char>> {
    Seq::new(segments.len() + 1, |k: int| chain_entry(segments, k))
}

/// Joins the segments of a relative path with `/`.
pub fn join_segments(segments: &Vec<String>) -> (r: String)
    ensures
        r@ == joined(texts(segments@)),
{
    join_by(segments, "/")
}

/// The ancestor chain that `segments` walks through, from `.` to the whole
/// path.
pub fn ancestor_chain(segments: &Vec<String>) -> (r: Vec<String>)
    ensures
        texts(r@) == ancestor_chain_of(texts(segments@)),
{
    let ghost all = texts(segments@);
    let mut chain: Vec<String> = Vec::new();
    chain.push(".".to_owned());
    let mut walked = String::new();
    let mut k: usize = 0;
    proof {
        assert(all.take(0) =~= Seq::<Seq<char>>::empty());
    }
    while k < segments.len()
        invariant
            k <= segments.len(),
            all == texts(segments@),
            walked@ == joined(all.take(k as int)),
            chain@.len() == k + 1,
            forall|i: int| 0 <= i <= k ==> (#[trigger] chain@[i])@ == chain_entry(all, i),
        decreases segments.len() - k,
    {
        proof {
            lemma_joined_step(all, "/"@, k as int);
        }
        if k > 0 {
            walked.append("/");
        }
        walked.append(segments[k].as_str());
        k += 1;
        chain.push(walked.clone());
    }
    proof {
        assert(texts(chain@) =~= ancestor_chain_of(all));
    }
    chain
}

/// Whether every segment is `..`: the path only climbs.
pub open spec fn climbs(segments: Seq<Seq<char>>) -> bool {
    forall|i: int| 0 <= i < segments.len() ==> segments[i] == ".."@
}

/// A path of `k` segments `..` joined by `/` has `3k - 1` characters.
pub proof fn lemma_climb_length(segments: Seq<Seq<char>>, k: int)
    requires
        climbs(segments),
        1 <= k <= segments.len(),
    ensures
        joined(segments.take(k)).len() == 3 * k - 1,
    decreases k,
{
    reveal_strlit("/");
    reveal_strlit("..");
    lemma_joined_step(segments, "/"@, k - 1);
    if k > 1 {
        lemma_climb_length(segments, k - 1);
    }
}

/// The ancestor chain is complete. Where the root lies `d` levels above the
/// working directory, so that the path to it is `d` segments `..`, the chain
/// has `d + 1` entries: `.` first, then `..`, and each further entry is the
/// one before it with one more `/..`, up to the path of the root itself. No
/// entry is empty and no two entries are the same.
pub proof fn lemma_ancestor_chain_complete(segments: Seq<Seq<char>>)
    requires
        climbs(segments),
    ensures
        ({
            let chain = ancestor_chain_of(segments);
            let d = segments.len() as int;
            &&& chain.len() == d + 1
            &&& chain[0] == "."@
            &&& d >= 1 ==> chain[1] == ".."@
            &&& forall|k: int|
                1 <= k < d ==> chain[k + 1] == (#[trigger] chain[k]) + "/"@ + ".."@
            &&& d >= 1 ==> chain[d] == joined(segments)
            &&& forall|k: int| 0 <= k <= d ==> (#[trigger] chain[k]).len() > 0
            &&& forall|i: int, j: int| 0 <= i < j <= d ==> chain[i] != chain[j]
        }),
{
    let chain = ancestor_chain_of(segments);
    let d = segments.len() as int;
    reveal_strlit(".");
    assert(segments.take(d) =~= segments);
    if d >= 1 {
        lemma_joined_step(segments, "/"@, 0);
    }
    assert forall|k: int| 1 <= k < d implies chain[k + 1] == (#[trigger] chain[k]) + "/"@
        + ".."@ by {
        lemma_joined_step(segments, "/"@, k);
    }
    assert forall|k: int| 0 <= k <= d implies (#[trigger] chain[k]).len() > 0 by {
        if k >= 1 {
            lemma_climb_length(segments, k);
        }
    }
    assert forall|i: int, j: int| 0 <= i < j <= d implies chain[i] != chain[j] by {
        lemma_climb_length(segments, j);
        if i >= 1 {
            lemma_climb_length(segments, i);
        }
    }
}

} // verus!
