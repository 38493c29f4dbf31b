//! What the evaluator needs to know of values: truthiness, equality, their
//! text and the names of their types.
use vstd::prelude::*;
use crate::ast::{LitView, Literal, all_lit_props, lemma_lit_props_view_len, lit_view};
use crate::same::{same_names, same_statement};

verus! {

broadcast use vstd::std_specs::vec::group_vec_axioms;

/// The contents of every array, by handle.
pub type HeapView = Seq<Seq<LitView>>;

pub open spec fn heap_view(h: Seq<Vec<Literal>>) -> HeapView {
    h.map_values(|a: Vec<Literal>| a@.map_values(|l: Literal| lit_view(l)))
}

/// Truthiness: a number unless zero, a string or array or object unless
/// empty, a boolean as itself, null and undefined never, a function always.
pub open spec fn truthy(v: LitView, heap: HeapView) -> bool {
    match v {
        LitView::Number(n) => n != 0,
        LitView::String(s) => s.len() > 0,
        LitView::Null => false,
        LitView::Boolean(b) => b,
        LitView::Undefined => false,
        LitView::Array(h) => h < heap.len() && heap[h as int].len() > 0,
        LitView::Object(ps) => ps.len() > 0,
        LitView::Function(..) => true,
        LitView::NativeFunction(..) => true,
    }
}

/// Structural equality of `==`. Arrays are equal when they are the same
/// array, or when their elements are pairwise equal; objects when their keys
/// and values are, in order; functions when their parameters and bodies are
/// the same code; native functions when they are the same intrinsic bound to
/// equal receivers. Each step into an array uses one unit of `depth`, so two
/// distinct arrays that nest deeper than that (only a cycle can) compare
/// unequal.
pub open spec fn values_equal(a: LitView, b: LitView, heap: HeapView, depth: nat) -> bool
    decreases depth, a,
{
    match (a, b) {
        (LitView::Number(x), LitView::Number(y)) => x == y,
        (LitView::String(x), LitView::String(y)) => x == y,
        (LitView::Boolean(x), LitView::Boolean(y)) => x == y,
        (LitView::Null, LitView::Null) => true,
        (LitView::Undefined, LitView::Undefined) => true,
        (LitView::Array(x), LitView::Array(y)) => x == y || (depth > 0 && x < heap.len() && y
            < heap.len() && items_equal(
            heap[x as int],
            heap[y as int],
            heap,
            (depth - 1) as nat,
        )),
        (LitView::Object(x), LitView::Object(y)) => props_equal(x, y, heap, depth),
        (LitView::Function(p, s), LitView::Function(q, t)) => p == q && s == t,
        (LitView::NativeFunction(f, r), LitView::NativeFunction(g, t)) => f == g && match (r, t) {
            (Some(x), Some(y)) => values_equal(*x, *y, heap, depth),
            (None, None) => true,
            _ => false,
        },
        _ => false,
    }
}

/// Two sequences of values of the same length, pairwise equal.
pub open spec fn items_equal(x: Seq<LitView>, y: Seq<LitView>, heap: HeapView, depth: nat) -> bool
    decreases depth, x,
{
    if x.len() != y.len() {
        false
    } else if x.len() == 0 {
        true
    } else {
        values_equal(x[0], y[0], heap, depth) && items_equal(
            x.subrange(1, x.len() as int),
            y.subrange(1, y.len() as int),
            heap,
            depth,
        )
    }
}

pub open spec fn props_equal(
    x: Seq<(Seq<char>, LitView)>,
    y: Seq<(Seq<char>, LitView)>,
    heap: HeapView,
    depth: nat,
) -> bool
    decreases depth, x,
{
    if x.len() != y.len() {
        false
    } else if x.len() == 0 {
        true
    } else {
        x[0].0 == y[0].0 && values_equal(x[0].1, y[0].1, heap, depth) && props_equal(
            x.subrange(1, x.len() as int),
            y.subrange(1, y.len() as int),
            heap,
            depth,
        )
    }
}

/// `==` on two values in a heap: every array of the heap may be stepped into.
pub open spec fn equal_in(a: LitView, b: LitView, heap: HeapView) -> bool {
    values_equal(a, b, heap, heap.len())
}

pub open spec fn digit_char(d: int) -> char {
    if d == 0 {
        '0'
    } else if d == 1 {
        '1'
    } else if d == 2 {
        '2'
    } else if d == 3 {
        '3'
    } else if d == 4 {
        '4'
    } else if d == 5 {
        '5'
    } else if d == 6 {
        '6'
    } else if d == 7 {
        '7'
    } else if d == 8 {
        '8'
    } else {
        '9'
    }
}

/// The decimal digits of a natural number, most significant first.
pub open spec fn digits_of(n: nat) -> Seq<char>
    decreases n,
{
    if n < 10 {
        seq![digit_char(n as int)]
    } else {
        digits_of(n / 10).push(digit_char((n % 10) as int))
    }
}

/// The decimal text of an integer.
pub open spec fn decimal(n: int) -> Seq<char> {
    if n < 0 {
        seq!['-'] + digits_of((-n) as nat)
    } else {
        digits_of(n as nat)
    }
}

/// The text `console.log` prints for a value.
pub open spec fn stringify(v: LitView) -> Seq<char> {
    match v {
        LitView::String(s) => s,
        LitView::Number(n) => decimal(n as int),
        LitView::Boolean(b) => if b {
            "true"@
        } else {
            "false"@
        },
        LitView::Null => "null"@,
        LitView::Undefined => "undefined"@,
        LitView::Object(..) => "[object]"@,
        LitView::Array(..) => "[array]"@,
        LitView::Function(..) => "[function]"@,
        LitView::NativeFunction(..) => "[native function]"@,
    }
}

/// The name `intrinsics.typeof` gives a value's type.
pub open spec fn kind_name(v: LitView) -> Seq<char> {
    match v {
        LitView::String(..) => "string"@,
        LitView::Number(..) => "number"@,
        LitView::Boolean(..) => "boolean"@,
        LitView::Null => "null"@,
        LitView::Undefined => "undefined"@,
        LitView::Object(..) => "object"@,
        LitView::Array(..) => "array"@,
        LitView::Function(..) => "function"@,
        LitView::NativeFunction(..) => "native function"@,
    }
}

pub fn truthy_value(v: &Literal, heap: &Vec<Vec<Literal>>) -> (r: bool)
    ensures
        r == truthy(lit_view(*v), heap_view(heap@)),
{
    match v {
        Literal::Number(n) => *n != 0,
        Literal::String(s) => s.unicode_len() > 0,
        Literal::Null => false,
        Literal::Boolean(b) => *b,
        Literal::Undefined => false,
        Literal::Array(h) => *h < heap.len() && heap[*h].len() > 0,
        Literal::Object(ps) => {
            proof {
                lemma_lit_props_view_len(ps@, ps@.len() as int);
            }
            ps.len() > 0
        },
        Literal::Function { .. } => true,
        Literal::NativeFunction(_) => true,
    }
}

pub fn equal_values(a: &Literal, b: &Literal, heap: &Vec<Vec<Literal>>, depth: usize) -> (r: bool)
    ensures
        r == values_equal(lit_view(*a), lit_view(*b), heap_view(heap@), depth as nat),
    decreases depth, a,
{
    match (a, b) {
        (Literal::Number(x), Literal::Number(y)) => *x == *y,
        (Literal::String(x), Literal::String(y)) => *x == *y,
        (Literal::Boolean(x), Literal::Boolean(y)) => *x == *y,
        (Literal::Null, Literal::Null) => true,
        (Literal::Undefined, Literal::Undefined) => true,
        (Literal::Array(x), Literal::Array(y)) => {
            if *x == *y {
                return true;
            }
            if depth == 0 || *x >= heap.len() || *y >= heap.len() {
                return false;
            }
            equal_items(&heap[*x], &heap[*y], heap, depth - 1)
        },
        (Literal::Object(x), Literal::Object(y)) => equal_properties(x, y, heap, depth),
        (Literal::Function { args: p, body: s }, Literal::Function { args: q, body: t }) => {
            same_names(p, q) && same_statement(s, t)
        },
        (Literal::NativeFunction(f), Literal::NativeFunction(g)) => {
            if f.builtin != g.builtin {
                return false;
            }
            match (&f.receiver, &g.receiver) {
                (Some(x), Some(y)) => equal_values(x, y, heap, depth),
                (None, None) => true,
                _ => false,
            }
        },
        _ => false,
    }
}

/// `==` on two values, stepping into arrays as deep as the heap has arrays.
pub fn equal_in_heap(a: &Literal, b: &Literal, heap: &Vec<Vec<Literal>>) -> (r: bool)
    ensures
        r == equal_in(lit_view(*a), lit_view(*b), heap_view(heap@)),
{
    equal_values(a, b, heap, heap.len())
}

fn equal_items(x: &Vec<Literal>, y: &Vec<Literal>, heap: &Vec<Vec<Literal>>, depth: usize) -> (r: bool)
    ensures
        r == items_equal(
            x@.map_values(|l: Literal| lit_view(l)),
            y@.map_values(|l: Literal| lit_view(l)),
            heap_view(heap@),
            depth as nat,
        ),
    decreases depth, x,
{
    let ghost xv = x@.map_values(|l: Literal| lit_view(l));
    let ghost yv = y@.map_values(|l: Literal| lit_view(l));
    let ghost hv = heap_view(heap@);
    if x.len() != y.len() {
        return false;
    }
    let n = x.len();
    let mut i: usize = 0;
    assert(xv.subrange(0, n as int) =~= xv);
    assert(yv.subrange(0, n as int) =~= yv);
    while i < n
        invariant
            n == x@.len() == y@.len() == xv.len() == yv.len(),
            i <= n,
            xv == x@.map_values(|l: Literal| lit_view(l)),
            yv == y@.map_values(|l: Literal| lit_view(l)),
            hv == heap_view(heap@),
            items_equal(xv, yv, hv, depth as nat) == items_equal(
                xv.subrange(i as int, n as int),
                yv.subrange(i as int, n as int),
                hv,
                depth as nat,
            ),
        decreases n - i,
    {
        let ghost xs = xv.subrange(i as int, n as int);
        let ghost ys = yv.subrange(i as int, n as int);
        assert(xs[0] == lit_view(x@[i as int]));
        assert(ys[0] == lit_view(y@[i as int]));
        assert(xs.subrange(1, xs.len() as int) =~= xv.subrange(i + 1, n as int));
        assert(ys.subrange(1, ys.len() as int) =~= yv.subrange(i + 1, n as int));
        assert(decreases_to!(x@ => x@[i as int]));
        if !equal_values(&x[i], &y[i], heap, depth) {
            return false;
        }
        i = i + 1;
    }
    assert(xv.subrange(n as int, n as int).len() == 0);
    true
}

fn equal_properties(
    x: &Vec<(String, Literal)>,
    y: &Vec<(String, Literal)>,
    heap: &Vec<Vec<Literal>>,
    depth: usize,
) -> (r: bool)
    ensures
        r == props_equal(all_lit_props(x@), all_lit_props(y@), heap_view(heap@), depth as nat),
    decreases depth, x,
{
    let ghost xv = all_lit_props(x@);
    let ghost yv = all_lit_props(y@);
    let ghost hv = heap_view(heap@);
    proof {
        lemma_lit_props_view_len(x@, x@.len() as int);
        lemma_lit_props_view_len(y@, y@.len() as int);
    }
    if x.len() != y.len() {
        return false;
    }
    let n = x.len();
    let mut i: usize = 0;
    assert(xv.subrange(0, n as int) =~= xv);
    assert(yv.subrange(0, n as int) =~= yv);
    while i < n
        invariant
            n == x@.len() == y@.len() == xv.len() == yv.len(),
            i <= n,
            xv == all_lit_props(x@),
            yv == all_lit_props(y@),
            hv == heap_view(heap@),
            forall|k: int| 0 <= k < n ==> #[trigger] xv[k] == (x@[k].0@, lit_view(x@[k].1)),
            forall|k: int| 0 <= k < n ==> #[trigger] yv[k] == (y@[k].0@, lit_view(y@[k].1)),
            props_equal(xv, yv, hv, depth as nat) == props_equal(
                xv.subrange(i as int, n as int),
                yv.subrange(i as int, n as int),
                hv,
                depth as nat,
            ),
        decreases n - i,
    {
        let ghost xs = xv.subrange(i as int, n as int);
        let ghost ys = yv.subrange(i as int, n as int);
        assert(xs[0] == xv[i as int]);
        assert(ys[0] == yv[i as int]);
        assert(xs.subrange(1, xs.len() as int) =~= xv.subrange(i + 1, n as int));
        assert(ys.subrange(1, ys.len() as int) =~= yv.subrange(i + 1, n as int));
        assert(decreases_to!(x@ => x@[i as int]));
        assert(decreases_to!(x@[i as int] => x@[i as int].1));
        if x[i].0 != y[i].0 || !equal_values(&x[i].1, &y[i].1, heap, depth) {
            return false;
        }
        i = i + 1;
    }
    assert(xv.subrange(n as int, n as int).len() == 0);
    true
}

fn digit_str(d: u64) -> (r: &'static str)
    requires
        d < 10,
    ensures
        r@ == seq![digit_char(d as int)],
{
    proof {
        reveal_strlit("0");
        reveal_strlit("1");
        reveal_strlit("2");
        reveal_strlit("3");
        reveal_strlit("4");
        reveal_strlit("5");
        reveal_strlit("6");
        reveal_strlit("7");
        reveal_strlit("8");
        reveal_strlit("9");
    }
    match d {
        0 => "0",
        1 => "1",
        2 => "2",
        3 => "3",
        4 => "4",
        5 => "5",
        6 => "6",
        7 => "7",
        8 => "8",
        _ => "9",
    }
}

/// The digits of `ds`, last first.
pub open spec fn reversed_digits(ds: Seq<u64>) -> Seq<char> {
    Seq::new(ds.len(), |i: int| digit_char(ds[ds.len() - 1 - i] as int))
}

/// The decimal text of a number.
pub fn to_decimal(n: i64) -> (r: String)
    ensures
        r@ == decimal(n as int),
{
    let mut m: u64 = if n < 0 {
        (-(n as i128)) as u64
    } else {
        n as u64
    };
    let ghost orig = m as nat;
    let mut ds: Vec<u64> = Vec::new();
    while m >= 10
        invariant
            digits_of(orig) == digits_of(m as nat) + reversed_digits(ds@),
            forall|k: int| 0 <= k < ds@.len() ==> #[trigger] ds@[k] < 10,
        decreases m,
    {
        let ghost before = ds@;
        ds.push(m % 10);
        proof {
            assert(reversed_digits(ds@) =~= seq![digit_char((m % 10) as int)] + reversed_digits(before));
            assert(digits_of(m as nat) == digits_of((m / 10) as nat).push(digit_char((m % 10) as int)));
            assert(digits_of((m / 10) as nat).push(digit_char((m % 10) as int)) + reversed_digits(before)
                =~= digits_of((m / 10) as nat) + reversed_digits(ds@));
        }
        m = m / 10;
    }
    let mut s = if n < 0 {
        String::from_str("-")
    } else {
        String::new()
    };
    proof {
        reveal_strlit("-");
    }
    let ghost prefix = s@;
    s = s.concat(digit_str(m));
    let mut k: usize = ds.len();
    while k > 0
        invariant
            k <= ds@.len(),
            forall|j: int| 0 <= j < ds@.len() ==> #[trigger] ds@[j] < 10,
            s@ == prefix + seq![digit_char(m as int)] + reversed_digits(ds@).subrange(
                0,
                ds@.len() - k,
            ),
        decreases k,
    {
        let ghost before = s@;
        s = s.concat(digit_str(ds[k - 1]));
        proof {
            assert(reversed_digits(ds@).subrange(0, ds@.len() - k + 1) =~= reversed_digits(
                ds@,
            ).subrange(0, ds@.len() - k).push(digit_char(ds@[k - 1] as int)));
        }
        k = k - 1;
    }
    proof {
        assert(reversed_digits(ds@).subrange(0, ds@.len() as int) =~= reversed_digits(ds@));
        assert(digits_of(m as nat) == seq![digit_char(m as int)]);
        if n < 0 {
            assert(prefix == seq!['-']);
        } else {
            assert(prefix =~= Seq::<char>::empty());
        }
        assert(s@ =~= prefix + digits_of(orig));
    }
    s
}

/// The text `console.log` prints for a value.
pub fn stringify_value(v: &Literal) -> (r: String)
    ensures
        r@ == stringify(lit_view(*v)),
{
    match v {
        Literal::String(s) => s.clone(),
        Literal::Number(n) => to_decimal(*n),
        Literal::Boolean(b) => if *b {
            String::from_str("true")
        } else {
            String::from_str("false")
        },
        Literal::Null => String::from_str("null"),
        Literal::Undefined => String::from_str("undefined"),
        Literal::Object(_) => String::from_str("[object]"),
        Literal::Array(_) => String::from_str("[array]"),
        Literal::Function { .. } => String::from_str("[function]"),
        Literal::NativeFunction(_) => String::from_str("[native function]"),
    }
}

/// The name of a value's type.
pub fn type_of(v: &Literal) -> (r: String)
    ensures
        r@ == kind_name(lit_view(*v)),
{
    match v {
        Literal::String(_) => String::from_str("string"),
        Literal::Number(_) => String::from_str("number"),
        Literal::Boolean(_) => String::from_str("boolean"),
        Literal::Null => String::from_str("null"),
        Literal::Undefined => String::from_str("undefined"),
        Literal::Object(_) => String::from_str("object"),
        Literal::Array(_) => String::from_str("array"),
        Literal::Function { .. } => String::from_str("function"),
        Literal::NativeFunction(_) => String::from_str("native function"),
    }
}

} // verus!
