//! The host intrinsics.
use vstd::prelude::*;
use crate::ast::{Builtin, LitView, Literal, NativeFn, clone_literal, lit_view, lemma_lit_props_view_len, all_lit_props};
use crate::frames::{ConstFrame, find_from};
use crate::interpreter::{Interpreter, lits_view, texts_view, value_res};
use crate::scope::Scope;
use crate::semantics::{RuntimeError, all_numbers, array_method, call_array_method, call_builtin, is_root, isqrt, join_texts, max_of, numbers_of, strings_of};
use crate::values::{heap_view, stringify, stringify_value, type_of};

verus! {

broadcast use vstd::std_specs::vec::group_vec_axioms;

/// What `str::split` gives for a string and a separator: the pieces
/// between the occurrences of the separator, in order.
pub uninterp spec fn split_of(s: Seq<char>, sep: Seq<char>) -> Seq<Seq<char>>;

/// Relies on `str::split`: the pieces depend on the two strings alone.
#[verifier::external_body]
fn split_text(s: &String, sep: &String) -> (r: Vec<String>)
    ensures
        r@.map_values(|p: String| p@) == split_of(s@, sep@),
{
    s.split(sep.as_str()).map(|p| p.to_string()).collect()
}

/// The registry of host intrinsics: the global objects installed at start,
/// and the methods that property access binds to arrays and strings.
pub struct Builtins {}

pub open spec fn native(b: Builtin) -> LitView {
    LitView::NativeFunction(b, None)
}

/// The global frame that `load` fills: `console`, `intrinsics`, `Object`, `Math`.
pub open spec fn globals() -> ConstFrame {
    seq![
        ("console"@, LitView::Object(seq![("log"@, native(Builtin::ConsoleLog))])),
        (
            "intrinsics"@,
            LitView::Object(
                seq![
                    ("dump"@, native(Builtin::IntrinsicsDump)),
                    ("typeof"@, native(Builtin::IntrinsicsTypeof)),
                ],
            ),
        ),
        ("Object"@, LitView::Object(seq![("keys"@, native(Builtin::ObjectKeys))])),
        (
            "Math"@,
            LitView::Object(
                seq![("sqrt"@, native(Builtin::MathSqrt)), ("max"@, native(Builtin::MathMax))],
            ),
        ),
    ]
}

fn native_value(b: Builtin) -> (r: Literal)
    ensures
        lit_view(r) == native(b),
{
    Literal::NativeFunction(NativeFn { builtin: b, receiver: None })
}

fn object_of(entries: Vec<(String, Literal)>) -> (r: Literal)
    ensures
        lit_view(r) == LitView::Object(all_lit_props(entries@)),
{
    Literal::Object(entries)
}

fn entry(name: &str, b: Builtin) -> (r: (String, Literal))
    ensures
        r.0@ == name@,
        lit_view(r.1) == native(b),
{
    (String::from_str(name), native_value(b))
}

proof fn lemma_props_one(v: Seq<(String, Literal)>)
    requires
        v.len() == 1,
    ensures
        all_lit_props(v) == seq![(v[0].0@, lit_view(v[0].1))],
{
    lemma_lit_props_view_len(v, 1);
    assert(all_lit_props(v) =~= seq![(v[0].0@, lit_view(v[0].1))]);
}

proof fn lemma_props_two(v: Seq<(String, Literal)>)
    requires
        v.len() == 2,
    ensures
        all_lit_props(v) == seq![(v[0].0@, lit_view(v[0].1)), (v[1].0@, lit_view(v[1].1))],
{
    lemma_lit_props_view_len(v, 2);
    assert(all_lit_props(v) =~= seq![(v[0].0@, lit_view(v[0].1)), (v[1].0@, lit_view(v[1].1))]);
}

/// Whether a name is the word `w`.
pub fn name_is(s: &String, w: &str) -> (r: bool)
    ensures
        r == (s@ == w@),
{
    let n = w.unicode_len();
    if s.as_str().unicode_len() != n {
        return false;
    }
    let mut i: usize = 0;
    while i < n
        invariant
            n == w@.len() == s@.len(),
            i <= n,
            forall|j: int| 0 <= j < i ==> s@[j] == w@[j],
        decreases n - i,
    {
        if s.as_str().get_char(i) != w.get_char(i) {
            return false;
        }
        i = i + 1;
    }
    assert(s@ =~= w@);
    true
}

impl NativeFn {
    pub fn new(builtin: Builtin, receiver: Option<Box<Literal>>) -> (r: Self)
        ensures
            r.builtin == builtin,
            r.receiver == receiver,
    {
        NativeFn { builtin, receiver }
    }
}

impl Builtins {
    pub fn new() -> (r: Self) {
        Builtins {  }
    }

    /// The array method `name` bound to the array `arr`.
    pub fn array_builtin(&self, arr: Literal, name: &String) -> (r: Result<Literal, RuntimeError>)
        ensures
            match array_method(name@) {
                Some(b) => value_res(r) == Ok::<LitView, RuntimeError>(
                    LitView::NativeFunction(b, Some(Box::new(lit_view(arr)))),
                ),
                None => r == Err::<Literal, RuntimeError>(RuntimeError::Type),
            },
    {
        proof {
            reveal_strlit("push");
            reveal_strlit("pop");
            reveal_strlit("join");
            reveal_strlit("reverse");
        }
        let b = if name_is(name, "push") {
            Builtin::ArrayPush
        } else if name_is(name, "pop") {
            Builtin::ArrayPop
        } else if name_is(name, "join") {
            Builtin::ArrayJoin
        } else if name_is(name, "reverse") {
            Builtin::ArrayReverse
        } else {
            return Err(RuntimeError::Type);
        };
        Ok(Literal::NativeFunction(NativeFn::new(b, Some(Box::new(arr)))))
    }

    /// The string method `name` bound to the string `s`.
    pub fn string_builtin(&self, s: Literal, name: &String) -> (r: Result<Literal, RuntimeError>)
        ensures
            name@ == "split"@ ==> value_res(r) == Ok::<LitView, RuntimeError>(
                LitView::NativeFunction(Builtin::StringSplit, Some(Box::new(lit_view(s)))),
            ),
            name@ != "split"@ ==> r == Err::<Literal, RuntimeError>(RuntimeError::Type),
    {
        if name_is(name, "split") {
            Ok(Literal::NativeFunction(NativeFn::new(Builtin::StringSplit, Some(Box::new(s)))))
        } else {
            Err(RuntimeError::Type)
        }
    }

    /// Installs the global objects into the scope's innermost frame.
    pub fn load(&self, scope: &mut Scope)
        requires
            old(scope).frames() == seq![ConstFrame::empty()],
        ensures
            final(scope).frames() == seq![globals()],
    {
        let mut console: Vec<(String, Literal)> = Vec::new();
        console.push(entry("log", Builtin::ConsoleLog));
        let mut intrinsics: Vec<(String, Literal)> = Vec::new();
        intrinsics.push(entry("dump", Builtin::IntrinsicsDump));
        intrinsics.push(entry("typeof", Builtin::IntrinsicsTypeof));
        let mut object: Vec<(String, Literal)> = Vec::new();
        object.push(entry("keys", Builtin::ObjectKeys));
        let mut math: Vec<(String, Literal)> = Vec::new();
        math.push(entry("sqrt", Builtin::MathSqrt));
        math.push(entry("max", Builtin::MathMax));
        proof {
            lemma_props_one(console@);
            lemma_props_two(intrinsics@);
            lemma_props_one(object@);
            lemma_props_two(math@);
            reveal_strlit("console");
            reveal_strlit("intrinsics");
            reveal_strlit("Object");
            reveal_strlit("Math");
            assert("console"@.len() == 7);
            assert("intrinsics"@.len() == 10);
            assert("Object"@.len() == 6);
            assert("Math"@.len() == 4);
        }
        let ghost g = globals();
        scope.set(String::from_str("console"), object_of(console));
        assert(scope.frames() =~~= seq![g.subrange(0, 1)]);
        assert(g.subrange(0, 1)[0].0 != "intrinsics"@);
        assert(find_from(g.subrange(0, 1), "intrinsics"@, 1) is None);
        scope.set(String::from_str("intrinsics"), object_of(intrinsics));
        assert(scope.frames() =~~= seq![g.subrange(0, 2)]);
        assert(g.subrange(0, 2)[1].0 != "Object"@);
        assert(g.subrange(0, 2)[0].0 != "Object"@);
        assert(find_from(g.subrange(0, 2), "Object"@, 2) is None);
        assert(find_from(g.subrange(0, 2), "Object"@, 1) is None);
        scope.set(String::from_str("Object"), object_of(object));
        assert(scope.frames() =~~= seq![g.subrange(0, 3)]);
        assert(g.subrange(0, 3)[2].0 != "Math"@);
        assert(g.subrange(0, 3)[1].0 != "Math"@);
        assert(g.subrange(0, 3)[0].0 != "Math"@);
        assert(find_from(g.subrange(0, 3), "Math"@, 3) is None);
        assert(find_from(g.subrange(0, 3), "Math"@, 2) is None);
        assert(find_from(g.subrange(0, 3), "Math"@, 1) is None);
        scope.set(String::from_str("Math"), object_of(math));
        assert(scope.frames() =~~= seq![g]);
    }
}

pub open spec fn recv_view(r: Option<Box<Literal>>) -> Option<LitView> {
    match r {
        Some(b) => Some(lit_view(*b)),
        None => None,
    }
}

proof fn lemma_root_unique(n: int, a: int, b: int)
    requires
        is_root(n, a),
        is_root(n, b),
    ensures
        a == b,
{
    if a < b {
        assert((a + 1) * (a + 1) <= b * b) by (nonlinear_arith)
            requires
                0 <= a,
                a + 1 <= b,
        ;
    } else if b < a {
        assert((b + 1) * (b + 1) <= a * a) by (nonlinear_arith)
            requires
                0 <= b,
                b + 1 <= a,
        ;
    }
}

fn text_literal(s: String) -> (r: Literal)
    ensures
        lit_view(r) == LitView::String(s@),
{
    let r = Literal::String(s);
    assert(lit_view(r) == LitView::String(s@));
    r
}

impl Interpreter {
    /// `console.log(v)`: prints the text of its one argument.
    pub fn console_log(&mut self, args: &Vec<Literal>) -> (r: Result<Literal, RuntimeError>)
        ensures
            (final(self).state(), value_res(r)) == call_builtin(
                old(self).state(),
                Builtin::ConsoleLog,
                None,
                lits_view(args@),
            ),
            final(self).ast == old(self).ast,
    {
        if args.len() != 1 {
            return Err(RuntimeError::Arity);
        }
        let text = stringify_value(&args[0]);
        let ghost before = self.output@;
        self.output.push(text);
        assert(texts_view(self.output@) =~= texts_view(before).push(text@));
        Ok(Literal::Undefined)
    }

    /// `intrinsics.dump(...)`: prints the text of each argument on a line of its own.
    pub fn intrinsics_dump(&mut self, args: &Vec<Literal>) -> (r: Result<Literal, RuntimeError>)
        ensures
            (final(self).state(), value_res(r)) == call_builtin(
                old(self).state(),
                Builtin::IntrinsicsDump,
                None,
                lits_view(args@),
            ),
            final(self).ast == old(self).ast,
    {
        let ghost out0 = texts_view(self.output@);
        let ghost texts = lits_view(args@).map_values(|v: LitView| stringify(v));
        let mut i: usize = 0;
        while i < args.len()
            invariant
                i <= args@.len(),
                texts == lits_view(args@).map_values(|v: LitView| stringify(v)),
                texts_view(self.output@) == out0 + texts.subrange(0, i as int),
                self.scope == old(self).scope,
                self.heap == old(self).heap,
                self.ast == old(self).ast,
                out0 == texts_view(old(self).output@),
            decreases args@.len() - i,
        {
            let text = stringify_value(&args[i]);
            let ghost before = self.output@;
            self.output.push(text);
            assert(texts_view(self.output@) =~= texts_view(before).push(text@));
            assert(texts.subrange(0, i + 1) =~= texts.subrange(0, i as int).push(text@));
            i = i + 1;
        }
        assert(texts.subrange(0, i as int) =~= texts);
        Ok(Literal::Undefined)
    }

    /// `intrinsics.typeof(v)`: the name of its argument's type.
    pub fn intrinsics_typeof(&mut self, args: &Vec<Literal>) -> (r: Result<Literal, RuntimeError>)
        ensures
            (final(self).state(), value_res(r)) == call_builtin(
                old(self).state(),
                Builtin::IntrinsicsTypeof,
                None,
                lits_view(args@),
            ),
            final(self).ast == old(self).ast,
    {
        if args.len() != 1 {
            return Err(RuntimeError::Arity);
        }
        Ok(Literal::String(type_of(&args[0])))
    }

    /// `Object.keys(o)`: a new array of the object's keys, in order.
    pub fn object_keys(&mut self, args: &Vec<Literal>) -> (r: Result<Literal, RuntimeError>)
        ensures
            (final(self).state(), value_res(r)) == call_builtin(
                old(self).state(),
                Builtin::ObjectKeys,
                None,
                lits_view(args@),
            ),
            final(self).ast == old(self).ast,
    {
        if args.len() != 1 {
            return Err(RuntimeError::Arity);
        }
        match &args[0] {
            Literal::Object(ps) => {
                let ghost pv = all_lit_props(ps@);
                proof {
                    lemma_lit_props_view_len(ps@, ps@.len() as int);
                }
                let mut keys: Vec<Literal> = Vec::new();
                let mut i: usize = 0;
                while i < ps.len()
                    invariant
                        i <= ps@.len(),
                        pv == all_lit_props(ps@),
                        pv.len() == ps@.len(),
                        forall|k: int| 0 <= k < ps@.len() ==> #[trigger] pv[k] == (ps@[k].0@, lit_view(ps@[k].1)),
                        lits_view(keys@) == pv.subrange(0, i as int).map_values(
                            |kv: (Seq<char>, LitView)| LitView::String(kv.0),
                        ),
                    decreases ps@.len() - i,
                {
                    let ghost before = keys@;
                    let key = text_literal(ps[i].0.clone());
                    keys.push(key);
                    assert(lits_view(keys@) =~= lits_view(before).push(LitView::String(ps@[i as int].0@)));
                    assert(pv[i as int] == (ps@[i as int].0@, lit_view(ps@[i as int].1)));
                    assert(pv.subrange(0, i + 1).map_values(
                        |kv: (Seq<char>, LitView)| LitView::String(kv.0),
                    ) =~= pv.subrange(0, i as int).map_values(
                        |kv: (Seq<char>, LitView)| LitView::String(kv.0),
                    ).push(LitView::String(pv[i as int].0)));
                    i = i + 1;
                }
                assert(pv.subrange(0, i as int) =~= pv);
                let h = self.heap.len();
                let ghost hv = heap_view(self.heap@);
                self.heap.push(keys);
                assert(heap_view(self.heap@) =~= hv.push(lits_view(keys@)));
                Ok(Literal::Array(h))
            },
            _ => Err(RuntimeError::Type),
        }
    }

    /// `Math.sqrt(n)`: the integer square root of a number that is not negative.
    pub fn math_sqrt(&mut self, args: &Vec<Literal>) -> (r: Result<Literal, RuntimeError>)
        ensures
            (final(self).state(), value_res(r)) == call_builtin(
                old(self).state(),
                Builtin::MathSqrt,
                None,
                lits_view(args@),
            ),
            final(self).ast == old(self).ast,
    {
        if args.len() != 1 {
            return Err(RuntimeError::Arity);
        }
        match &args[0] {
            Literal::Number(n) => {
                if *n < 0 {
                    return Err(RuntimeError::Arithmetic);
                }
                let target = *n as u128;
                let mut lo: u128 = 0;
                let mut hi: u128 = 3_037_000_500;
                assert(hi * hi > i64::MAX) by (nonlinear_arith)
                    requires
                        hi == 3_037_000_500u128,
                ;
                while hi - lo > 1
                    invariant
                        lo < hi <= 3_037_000_500,
                        lo * lo <= target,
                        target < hi * hi,
                        target == *n as int,
                    decreases hi - lo,
                {
                    let mid = lo + (hi - lo) / 2;
                    assert(mid * mid <= 3_037_000_500u128 * 3_037_000_500u128) by (nonlinear_arith)
                        requires
                            mid <= 3_037_000_500u128,
                    ;
                    if mid * mid <= target {
                        lo = mid;
                    } else {
                        hi = mid;
                    }
                }
                proof {
                    assert(is_root(*n as int, lo as int));
                    lemma_root_unique(*n as int, lo as int, isqrt(*n as int));
                }
                Ok(Literal::Number(lo as i64))
            },
            _ => Err(RuntimeError::Type),
        }
    }

    /// `Math.max(a, b, ...)`: the largest of two or more numbers.
    pub fn math_max(&mut self, args: &Vec<Literal>) -> (r: Result<Literal, RuntimeError>)
        ensures
            (final(self).state(), value_res(r)) == call_builtin(
                old(self).state(),
                Builtin::MathMax,
                None,
                lits_view(args@),
            ),
            final(self).ast == old(self).ast,
    {
        if args.len() < 2 {
            return Err(RuntimeError::Arity);
        }
        let ghost av = lits_view(args@);
        let ghost ns = numbers_of(av);
        let mut i: usize = 0;
        let mut best: i64 = 0;
        while i < args.len()
            invariant
                2 <= args@.len(),
                i <= args@.len(),
                av == lits_view(args@),
                ns == numbers_of(av),
                forall|k: int| 0 <= k < i ==> #[trigger] av[k] is Number,
                i > 0 ==> best == max_of(ns.subrange(0, i as int)),
            decreases args@.len() - i,
        {
            match &args[i] {
                Literal::Number(x) => {
                    assert(av[i as int] == lit_view(args@[i as int]));
                    assert(av[i as int] == LitView::Number(*x));
                    let ghost sub = ns.subrange(0, i + 1);
                    assert(sub.drop_last() =~= ns.subrange(0, i as int));
                    assert(sub.last() == *x);
                    if i == 0 || *x > best {
                        best = *x;
                    }
                },
                _ => {
                    assert(av[i as int] == lit_view(args@[i as int]));
                    assert(!(av[i as int] is Number));
                    assert(!all_numbers(av));
                    return Err(RuntimeError::Type);
                },
            }
            i = i + 1;
        }
        assert(ns.subrange(0, i as int) =~= ns);
        Ok(Literal::Number(best))
    }

    pub(crate) fn take_array(&mut self, h: usize) -> (r: Vec<Literal>)
        requires
            h < old(self).heap@.len(),
        ensures
            r@ == old(self).heap@[h as int]@,
            final(self).heap@ == old(self).heap@.update(h as int, final(self).heap@[h as int]),
            final(self).scope == old(self).scope,
            final(self).output == old(self).output,
            final(self).ast == old(self).ast,
    {
        let mut a: Vec<Literal> = Vec::new();
        self.heap.set_and_swap(h, &mut a);
        a
    }

    /// `arr.push(x)`: appends, and gives the new length.
    pub fn array_push(&mut self, h: usize, args: &Vec<Literal>) -> (r: Result<Literal, RuntimeError>)
        requires
            h < old(self).heap@.len(),
        ensures
            (final(self).state(), value_res(r)) == call_array_method(
                old(self).state(),
                Builtin::ArrayPush,
                h,
                lits_view(args@),
            ),
            final(self).ast == old(self).ast,
    {
        if args.len() != 1 {
            return Err(RuntimeError::Arity);
        }
        if self.heap[h].len() as u64 >= i64::MAX as u64 {
            return Err(RuntimeError::Arithmetic);
        }
        let ghost hv = heap_view(self.heap@);
        let mut a = self.take_array(h);
        a.push(clone_literal(&args[0]));
        let n = a.len();
        self.heap.set(h, a);
        assert(heap_view(self.heap@) =~~= hv.update(h as int, hv[h as int].push(lit_view(args@[0]))));
        Ok(Literal::Number(n as i64))
    }

    /// `arr.pop()`: removes and gives the last element (undefined when empty).
    pub fn array_pop(&mut self, h: usize, args: &Vec<Literal>) -> (r: Result<Literal, RuntimeError>)
        requires
            h < old(self).heap@.len(),
        ensures
            (final(self).state(), value_res(r)) == call_array_method(
                old(self).state(),
                Builtin::ArrayPop,
                h,
                lits_view(args@),
            ),
            final(self).ast == old(self).ast,
    {
        if args.len() != 0 {
            return Err(RuntimeError::Arity);
        }
        if self.heap[h].len() == 0 {
            return Ok(Literal::Undefined);
        }
        let ghost hv = heap_view(self.heap@);
        let mut a = self.take_array(h);
        let last = match a.pop() {
            Some(x) => x,
            None => Literal::Undefined,
        };
        self.heap.set(h, a);
        assert(heap_view(self.heap@) =~~= hv.update(h as int, hv[h as int].drop_last()));
        Ok(last)
    }

    /// `arr.join(sep)`: the texts of the elements with `sep` (by default
    /// `,`) between each two.
    pub fn array_join(&mut self, h: usize, args: &Vec<Literal>) -> (r: Result<Literal, RuntimeError>)
        requires
            h < old(self).heap@.len(),
        ensures
            (final(self).state(), value_res(r)) == call_array_method(
                old(self).state(),
                Builtin::ArrayJoin,
                h,
                lits_view(args@),
            ),
            final(self).ast == old(self).ast,
    {
        if args.len() > 1 {
            return Err(RuntimeError::Arity);
        }
        let sep = if args.len() == 0 {
            String::from_str(",")
        } else {
            match &args[0] {
                Literal::String(x) => x.clone(),
                _ => {
                    return Err(RuntimeError::Type);
                },
            }
        };
        let items = &self.heap[h];
        let ghost parts = heap_view(self.heap@)[h as int].map_values(|v: LitView| stringify(v));
        let mut text = String::new();
        let mut i: usize = 0;
        while i < items.len()
            invariant
                i <= items@.len(),
                parts == lits_view(items@).map_values(|v: LitView| stringify(v)),
                text@ == join_texts(parts.subrange(0, i as int), sep@),
            decreases items@.len() - i,
        {
            let piece = stringify_value(&items[i]);
            let ghost sub = parts.subrange(0, i + 1);
            assert(sub.drop_last() =~= parts.subrange(0, i as int));
            if i > 0 {
                text = text.concat(sep.as_str());
            } else {
                assert(text@ =~= Seq::<char>::empty());
            }
            text = text.concat(piece.as_str());
            i = i + 1;
        }
        assert(parts.subrange(0, i as int) =~= parts);
        Ok(Literal::String(text))
    }

    /// `arr.reverse()`: reverses the elements in place, and gives the array.
    pub fn array_reverse(&mut self, h: usize, args: &Vec<Literal>) -> (r: Result<Literal, RuntimeError>)
        requires
            h < old(self).heap@.len(),
        ensures
            (final(self).state(), value_res(r)) == call_array_method(
                old(self).state(),
                Builtin::ArrayReverse,
                h,
                lits_view(args@),
            ),
            final(self).ast == old(self).ast,
    {
        if args.len() != 0 {
            return Err(RuntimeError::Arity);
        }
        let ghost hv = heap_view(self.heap@);
        let mut a = self.take_array(h);
        let ghost orig = lits_view(a@);
        let mut out: Vec<Literal> = Vec::new();
        while a.len() > 0
            invariant
                orig.len() == a@.len() + out@.len(),
                lits_view(a@) == orig.subrange(0, a@.len() as int),
                forall|k: int| 0 <= k < out@.len() ==> #[trigger] lits_view(out@)[k] == orig[orig.len() - 1 - k],
            decreases a@.len(),
        {
            let ghost n = a@.len();
            let ghost before = a@;
            assert(lits_view(before)[n - 1] == orig[n - 1]);
            match a.pop() {
                Some(x) => {
                    assert(lit_view(x) == orig[n - 1]);
                    let ghost old_out = out@;
                    out.push(x);
                    assert(lits_view(out@) =~= lits_view(old_out).push(lit_view(x)));
                },
                None => {},
            }
            assert(lits_view(a@) =~= orig.subrange(0, a@.len() as int));
        }
        self.heap.set(h, out);
        assert(lits_view(out@) =~= orig.reverse());
        assert(heap_view(self.heap@) =~~= hv.update(h as int, hv[h as int].reverse()));
        Ok(Literal::Array(h))
    }

    /// `s.split(sep)`: a new array of the pieces of `s` between the
    /// occurrences of `sep` (by default a space).
    pub fn string_split(&mut self, s: &String, args: &Vec<Literal>) -> (r: Result<Literal, RuntimeError>)
        ensures
            (final(self).state(), value_res(r)) == call_builtin(
                old(self).state(),
                Builtin::StringSplit,
                Some(LitView::String(s@)),
                lits_view(args@),
            ),
            final(self).ast == old(self).ast,
    {
        if args.len() > 1 {
            return Err(RuntimeError::Arity);
        }
        let sep = if args.len() == 0 {
            String::from_str(" ")
        } else {
            match &args[0] {
                Literal::String(x) => x.clone(),
                _ => {
                    return Err(RuntimeError::Type);
                },
            }
        };
        let pieces = split_text(s, &sep);
        let ghost pv = pieces@.map_values(|p: String| p@);
        let mut items: Vec<Literal> = Vec::new();
        let mut i: usize = 0;
        while i < pieces.len()
            invariant
                i <= pieces@.len(),
                pv == pieces@.map_values(|p: String| p@),
                lits_view(items@) == strings_of(pv.subrange(0, i as int)),
            decreases pieces@.len() - i,
        {
            let ghost before = items@;
            let item = text_literal(pieces[i].clone());
            items.push(item);
            assert(lits_view(items@) =~= lits_view(before).push(LitView::String(pv[i as int])));
            assert(strings_of(pv.subrange(0, i + 1)) =~= strings_of(pv.subrange(0, i as int)).push(
                LitView::String(pv[i as int]),
            ));
            i = i + 1;
        }
        assert(pv.subrange(0, i as int) =~= pv);
        let h = self.heap.len();
        let ghost hv = heap_view(self.heap@);
        self.heap.push(items);
        assert(heap_view(self.heap@) =~= hv.push(lits_view(items@)));
        Ok(Literal::Array(h))
    }

    /// Calls a host intrinsic, bound to `recv` where it came from a property.
    pub fn call_builtin(&mut self, b: Builtin, recv: &Option<Box<Literal>>, args: &Vec<Literal>) -> (r: Result<
        Literal,
        RuntimeError,
    >)
        ensures
            (final(self).state(), value_res(r)) == call_builtin(
                old(self).state(),
                b,
                recv_view(*recv),
                lits_view(args@),
            ),
            final(self).ast == old(self).ast,
    {
        match b {
            Builtin::ConsoleLog => self.console_log(args),
            Builtin::IntrinsicsDump => self.intrinsics_dump(args),
            Builtin::IntrinsicsTypeof => self.intrinsics_typeof(args),
            Builtin::ObjectKeys => self.object_keys(args),
            Builtin::MathSqrt => self.math_sqrt(args),
            Builtin::MathMax => self.math_max(args),
            Builtin::StringSplit => match recv {
                Some(r) => match &**r {
                    Literal::String(s) => self.string_split(s, args),
                    _ => Err(RuntimeError::Type),
                },
                None => Err(RuntimeError::Type),
            },
            _ => match recv {
                Some(r) => match &**r {
                    Literal::Array(h) => {
                        if *h >= self.heap.len() {
                            return Err(RuntimeError::Type);
                        }
                        match b {
                            Builtin::ArrayPush => self.array_push(*h, args),
                            Builtin::ArrayPop => self.array_pop(*h, args),
                            Builtin::ArrayJoin => self.array_join(*h, args),
                            _ => self.array_reverse(*h, args),
                        }
                    },
                    _ => Err(RuntimeError::Type),
                },
                None => Err(RuntimeError::Type),
            },
        }
    }
}

} // verus!
