//! Stacks of frames that map names to values, searched from the innermost
//! frame outward. Both the optimizer's constant table and the evaluator's
//! scope chain are such stacks.
use vstd::prelude::*;
use crate::ast::LitView;

verus! {

/// One frame: names with their values, each name at most once.
pub type ConstFrame = Seq<(Seq<char>, LitView)>;

pub open spec fn find_from(f: ConstFrame, k: Seq<char>, i: int) -> Option<int>
    decreases f.len() - i,
{
    if i < 0 || i >= f.len() {
        None
    } else if f[i].0 == k {
        Some(i)
    } else {
        find_from(f, k, i + 1)
    }
}

/// The first entry of a frame for the name `k`.
pub open spec fn find_in(f: ConstFrame, k: Seq<char>) -> Option<int> {
    find_from(f, k, 0)
}

/// The innermost frame that has an entry for `k`.
pub open spec fn innermost(frames: Seq<ConstFrame>, k: Seq<char>) -> Option<int>
    decreases frames.len(),
{
    if frames.len() == 0 {
        None
    } else if find_in(frames.last(), k) is Some {
        Some(frames.len() - 1)
    } else {
        innermost(frames.drop_last(), k)
    }
}

/// The constant that `k` stands for, searching from the innermost frame out.
pub open spec fn lookup(frames: Seq<ConstFrame>, k: Seq<char>) -> Option<LitView> {
    match innermost(frames, k) {
        Some(j) => Some(frames[j][find_in(frames[j], k)->0].1),
        None => None,
    }
}

/// The stack with `k` bound to `v` in the innermost frame: an entry for `k`
/// there is replaced, else one is added.
pub open spec fn bind(frames: Seq<ConstFrame>, k: Seq<char>, v: LitView) -> Seq<ConstFrame> {
    if frames.len() == 0 {
        frames
    } else {
        let f = frames.last();
        let f2 = match find_in(f, k) {
            Some(i) => f.update(i, (k, v)),
            None => f.push((k, v)),
        };
        frames.update(frames.len() - 1, f2)
    }
}

/// The stack with the innermost binding of `k` changed to `v`, if there is one.
pub open spec fn rebind(frames: Seq<ConstFrame>, k: Seq<char>, v: LitView) -> Seq<ConstFrame> {
    match innermost(frames, k) {
        Some(j) => frames.update(j, frames[j].update(find_in(frames[j], k)->0, (k, v))),
        None => frames,
    }
}

pub proof fn lemma_find_bounds(f: ConstFrame, k: Seq<char>, i: int)
    requires
        0 <= i,
    ensures
        find_from(f, k, i) is Some ==> ({
            let j = find_from(f, k, i)->0;
            i <= j < f.len() && f[j].0 == k
        }),
    decreases f.len() - i,
{
    if i < f.len() && f[i].0 != k {
        lemma_find_bounds(f, k, i + 1);
    }
}

pub proof fn lemma_innermost_bounds(frames: Seq<ConstFrame>, k: Seq<char>)
    ensures
        innermost(frames, k) is Some ==> 0 <= innermost(frames, k)->0 < frames.len(),
    decreases frames.len(),
{
    if frames.len() > 0 && find_in(frames.last(), k) is None {
        lemma_innermost_bounds(frames.drop_last(), k);
    }
}

} // verus!
