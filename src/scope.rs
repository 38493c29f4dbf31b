//! The evaluator's chain of lexical scopes.
use vstd::prelude::*;
use crate::ast::{Literal, all_lit_props, clone_literal, lemma_lit_props_view_len, lit_view};
use crate::frames::{ConstFrame, bind, find_from, find_in, innermost, lookup, rebind};

verus! {

broadcast use vstd::std_specs::vec::group_vec_axioms;

pub open spec fn scope_frame_view(f: Seq<(String, Literal)>) -> ConstFrame {
    f.map_values(|kv: (String, Literal)| (kv.0@, lit_view(kv.1)))
}

pub proof fn lemma_frame_views_agree(f: Seq<(String, Literal)>)
    ensures
        all_lit_props(f) == scope_frame_view(f),
{
    lemma_lit_props_view_len(f, f.len() as int);
    assert(all_lit_props(f) =~= scope_frame_view(f));
}

/// A stack of frames, each binding names to values; the first frame is the
/// global one.
pub struct Scope {
    scopes: Vec<Vec<(String, Literal)>>,
}

pub fn find_binding(f: &Vec<(String, Literal)>, k: &String) -> (r: Option<usize>)
    ensures
        match r {
            Some(i) => find_in(scope_frame_view(f@), k@) == Some(i as int) && i < f@.len(),
            None => find_in(scope_frame_view(f@), k@) is None,
        },
{
    let ghost fv = scope_frame_view(f@);
    let mut i: usize = 0;
    while i < f.len()
        invariant
            i <= f@.len(),
            fv == scope_frame_view(f@),
            find_in(fv, k@) == find_from(fv, k@, i as int),
        decreases f@.len() - i,
    {
        if f[i].0 == *k {
            return Some(i);
        }
        i = i + 1;
    }
    None
}

impl Scope {
    /// The frames, innermost last.
    pub closed spec fn frames(&self) -> Seq<ConstFrame> {
        self.scopes@.map_values(|f: Vec<(String, Literal)>| scope_frame_view(f@))
    }

    /// A scope chain holding only the (empty) global frame.
    pub fn new() -> (r: Self)
        ensures
            r.frames() == seq![ConstFrame::empty()],
    {
        let mut scopes: Vec<Vec<(String, Literal)>> = Vec::new();
        scopes.push(Vec::new());
        let r = Scope { scopes };
        assert(r.frames() =~= seq![ConstFrame::empty()]) by {
            assert(scope_frame_view(r.scopes@[0]@) =~= ConstFrame::empty());
        }
        r
    }

    /// How many frames are on the stack.
    pub fn depth(&self) -> (r: usize)
        ensures
            r == self.frames().len(),
    {
        self.scopes.len()
    }

    /// Pushes an empty frame.
    pub fn enter(&mut self)
        ensures
            final(self).frames() == old(self).frames().push(ConstFrame::empty()),
    {
        self.scopes.push(Vec::new());
        proof {
            let e: Vec<(String, Literal)> = self.scopes@.last();
            assert(scope_frame_view(e@) =~= ConstFrame::empty());
            assert(self.frames() =~= old(self).frames().push(ConstFrame::empty()));
        }
    }

    /// Pops the innermost frame, if there is one.
    pub fn exit(&mut self)
        ensures
            final(self).frames() == (if old(self).frames().len() > 0 {
                old(self).frames().drop_last()
            } else {
                old(self).frames()
            }),
    {
        let ghost fv = self.frames();
        let _ = self.scopes.pop();
        assert(fv.len() > 0 ==> self.frames() =~= fv.drop_last());
    }

    fn locate(&self, k: &String) -> (r: Option<(usize, usize)>)
        ensures
            match r {
                Some((j, i)) => innermost(self.frames(), k@) == Some(j as int) && find_in(
                    self.frames()[j as int],
                    k@,
                ) == Some(i as int) && j < self.scopes@.len() && i < self.scopes@[j as int]@.len(),
                None => innermost(self.frames(), k@) is None,
            },
    {
        let ghost fv = self.frames();
        let mut j: usize = self.scopes.len();
        assert(fv.subrange(0, j as int) =~= fv);
        while j > 0
            invariant
                j <= self.scopes@.len(),
                fv == self.frames(),
                innermost(fv, k@) == innermost(fv.subrange(0, j as int), k@),
            decreases j,
        {
            let ghost sub = fv.subrange(0, j as int);
            assert(sub.last() == fv[j - 1]);
            assert(sub.drop_last() =~= fv.subrange(0, j - 1));
            match find_binding(&self.scopes[j - 1], k) {
                Some(i) => {
                    return Some((j - 1, i));
                },
                None => {},
            }
            j = j - 1;
        }
        None
    }

    /// The value bound to `name` in the innermost frame that binds it.
    pub fn get(&self, name: &String) -> (r: Option<Literal>)
        ensures
            match r {
                Some(v) => lookup(self.frames(), name@) == Some(lit_view(v)),
                None => lookup(self.frames(), name@) is None,
            },
    {
        match self.locate(name) {
            Some((j, i)) => Some(clone_literal(&self.scopes[j][i].1)),
            None => None,
        }
    }

    /// Binds `name` to `value` in the innermost frame (a declaration).
    pub fn set(&mut self, name: String, value: Literal)
        ensures
            final(self).frames() == bind(old(self).frames(), name@, lit_view(value)),
    {
        if self.scopes.len() == 0 {
            return;
        }
        let ghost fv = self.frames();
        let mut f = match self.scopes.pop() {
            Some(f) => f,
            None => {
                return;
            },
        };
        let ghost fo = f@;
        let ghost kv = (name@, lit_view(value));
        match find_binding(&f, &name) {
            Some(i) => {
                f.remove(i);
                f.insert(i, (name, value));
                assert(scope_frame_view(f@) =~= scope_frame_view(fo).update(i as int, kv));
            },
            None => {
                f.push((name, value));
                assert(scope_frame_view(f@) =~= scope_frame_view(fo).push(kv));
            },
        }
        self.scopes.push(f);
        assert(self.frames() =~= bind(fv, kv.0, kv.1));
    }

    /// Changes the innermost existing binding of `name` to `value` (an
    /// assignment); false, with nothing changed, where `name` is unbound.
    pub fn assign(&mut self, name: String, value: Literal) -> (r: bool)
        ensures
            r == (innermost(old(self).frames(), name@) is Some),
            final(self).frames() == rebind(old(self).frames(), name@, lit_view(value)),
    {
        match self.locate(&name) {
            Some((j, i)) => {
                let ghost fv = self.frames();
                let ghost kv = (name@, lit_view(value));
                let mut f = self.scopes.remove(j);
                let ghost fo = f@;
                f.remove(i);
                f.insert(i, (name, value));
                assert(scope_frame_view(f@) =~= scope_frame_view(fo).update(i as int, kv));
                self.scopes.insert(j, f);
                assert(self.frames() =~= rebind(fv, kv.0, kv.1));
                true
            },
            None => false,
        }
    }
}

} // verus!
