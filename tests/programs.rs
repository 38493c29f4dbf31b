use jsinterp::pipeline::{run_source, run_source_with_fuel, Error};
use jsinterp::semantics::RuntimeError;

fn printed(src: &str) -> Vec<String> {
    let (out, outcome) = run_source(src, false);
    assert_eq!(outcome, Ok(()), "program failed: {}", src);
    out
}

fn printed_optimized(src: &str) -> Vec<String> {
    let (out, outcome) = run_source(src, true);
    assert_eq!(outcome, Ok(()), "program failed: {}", src);
    out
}

fn failure(src: &str) -> Error {
    let (_, outcome) = run_source(src, false);
    match outcome {
        Err(e) => e,
        Ok(()) => panic!("program should have failed: {}", src),
    }
}

#[test]
fn flat_right_associative_arithmetic() {
    assert_eq!(printed("let x = 1 + 2 * 3; console.log(x);"), vec!["7"]);
}

#[test]
fn subtraction_groups_to_the_right() {
    assert_eq!(printed("console.log(10 - 4 - 3);"), vec!["9"]);
}

#[test]
fn string_concatenation() {
    assert_eq!(printed("let s = \"hello\" + \" \" + \"world\"; console.log(s);"), vec!["hello world"]);
}

#[test]
fn recursive_factorial() {
    let src = "function fact(n) { if (n == 0) { return 1; } return n * fact(n - 1); } console.log(fact(5));";
    assert_eq!(printed(src), vec!["120"]);
}

#[test]
fn array_push_length_join() {
    let src = "let a = [1, 2, 3]; a.push(4); console.log(a.length); console.log(a.join(\",\"));";
    assert_eq!(printed(src), vec!["4", "1,2,3,4"]);
}

#[test]
fn while_loop_updates_outer_binding() {
    let src = "let i = 0; while (i < 3) { console.log(i); i = i + 1; }";
    assert_eq!(printed(src), vec!["0", "1", "2"]);
}

#[test]
fn object_property_assignment() {
    let src = "let o = { name: \"x\" }; o.name = \"y\"; console.log(o.name);";
    assert_eq!(printed(src), vec!["y"]);
}

#[test]
fn for_loop_counts() {
    let src = "for (let i = 0; i < 2; i = i + 1) { console.log(i); }";
    assert_eq!(printed(src), vec!["0", "1"]);
}

#[test]
fn optimized_program_prints_folded_value() {
    let src = "let x = 10; let y = x + 5; console.log(y);";
    assert_eq!(printed_optimized(src), vec!["15"]);
}

#[test]
fn arrays_are_shared_between_bindings() {
    let src = "let a = [1,2]; let b = a; b.push(3); console.log(a.length); console.log(a[2]);";
    assert_eq!(printed(src), vec!["3", "3"]);
}

#[test]
fn falsy_values_take_the_else_branch() {
    for cond in ["0", "\"\"", "null", "undefined", "[]", "{}"] {
        let src = format!("if ({}) {{ console.log(\"then\"); }} else {{ console.log(\"else\"); }}", cond);
        assert_eq!(printed(&src), vec!["else"], "condition {}", cond);
    }
}

#[test]
fn truthy_values_take_the_then_branch() {
    for cond in ["1", "\"a\"", "true", "[0]", "{ k: 0 }", "console.log"] {
        let src = format!("if ({}) {{ console.log(\"then\"); }} else {{ console.log(\"else\"); }}", cond);
        assert_eq!(printed(&src), vec!["then"], "condition {}", cond);
    }
}

#[test]
fn optimizer_keeps_printed_output() {
    let programs = [
        "let x = 10; let y = x + 5; console.log(y);",
        "let s = \"a\" + \"b\"; console.log(s + s);",
        "let n = 3; let t = 0; while (t < n) { t = t + 1; } console.log(t);",
        "function sq(v) { return v * v; } let k = 4; console.log(sq(k) - -2);",
    ];
    for src in programs {
        assert_eq!(printed(src), printed_optimized(src), "program {}", src);
    }
}

#[test]
fn undefined_name_is_a_name_error() {
    assert_eq!(failure("undefined_name;"), Error::Runtime(RuntimeError::Name));
}

#[test]
fn number_plus_string_concatenates() {
    assert_eq!(printed("console.log(1 + \"a\"); console.log(\"a\" + 1);"), vec!["1a", "a1"]);
}

#[test]
fn number_plus_boolean_is_a_type_error() {
    assert_eq!(failure("1 + true;"), Error::Runtime(RuntimeError::Type));
}

#[test]
fn calling_a_number_is_a_type_error() {
    assert_eq!(failure("(1)();"), Error::Runtime(RuntimeError::Type));
}

#[test]
fn index_out_of_bounds_is_an_index_error() {
    assert_eq!(failure("[1,2][5];"), Error::Runtime(RuntimeError::Index));
}

#[test]
fn wrong_argument_count_is_an_arity_error() {
    assert_eq!(failure("function f(a){} f(1,2);"), Error::Runtime(RuntimeError::Arity));
}

#[test]
fn division_by_zero_is_an_arithmetic_error() {
    assert_eq!(failure("1 / 0;"), Error::Runtime(RuntimeError::Arithmetic));
}

#[test]
fn overflow_is_an_arithmetic_error() {
    assert_eq!(failure("9223372036854775807 + 1;"), Error::Runtime(RuntimeError::Arithmetic));
}

#[test]
fn division_and_remainder_round_toward_zero() {
    assert_eq!(printed("console.log(7 / 2); console.log(-7 / 2); console.log(-7 % 3); console.log(7 % -3);"), vec!["3", "-3", "-1", "1"]);
}

#[test]
fn comparisons_and_logic() {
    let src = "console.log(1 < 2); console.log(2 <= 1); console.log((3 > 2) && 0); console.log(0 || \"x\"); console.log(!0);";
    assert_eq!(printed(src), vec!["true", "false", "false", "true", "true"]);
}

#[test]
fn equality_is_structural() {
    let src = "console.log(1 == 1); console.log(\"a\" != \"a\"); console.log(null == undefined); let a = [1]; let b = a; console.log(a == b); console.log([1] == [1]);";
    assert_eq!(printed(src), vec!["true", "false", "false", "true", "true"]);
}

#[test]
fn stringification_of_each_kind() {
    let src = "console.log(true); console.log(null); console.log(undefined); console.log({}); console.log([]); function f() {} console.log(f); console.log(console.log); console.log(-42);";
    assert_eq!(printed(src), vec!["true", "null", "undefined", "[object]", "[array]", "[function]", "[native function]", "-42"]);
}

#[test]
fn typeof_names_every_kind() {
    let src = "console.log(intrinsics.typeof(\"s\")); console.log(intrinsics.typeof(1)); console.log(intrinsics.typeof(false)); console.log(intrinsics.typeof(null)); console.log(intrinsics.typeof(undefined)); console.log(intrinsics.typeof({})); console.log(intrinsics.typeof([])); function f() {} console.log(intrinsics.typeof(f)); console.log(intrinsics.typeof(Math.max));";
    assert_eq!(printed(src), vec!["string", "number", "boolean", "null", "undefined", "object", "array", "function", "native function"]);
}

#[test]
fn object_keys_in_order() {
    assert_eq!(printed("let o = { b: 1, a: 2 }; o.c = 3; console.log(Object.keys(o).join(\"|\"));"), vec!["b|a|c"]);
}

#[test]
fn math_intrinsics() {
    assert_eq!(printed("console.log(Math.sqrt(17)); console.log(Math.sqrt(16)); console.log(Math.max(3, 9, 2));"), vec!["4", "4", "9"]);
}

#[test]
fn math_max_needs_two_arguments() {
    assert_eq!(failure("Math.max(1);"), Error::Runtime(RuntimeError::Arity));
}

#[test]
fn array_pop_and_reverse() {
    let src = "let a = [1, 2, 3]; console.log(a.pop()); a.reverse(); console.log(a.join()); let e = []; console.log(e.pop());";
    assert_eq!(printed(src), vec!["3", "2,1", "undefined"]);
}

#[test]
fn string_split_makes_an_array() {
    let src = "let p = \"a,b,,c\".split(\",\"); console.log(p.length); console.log(p.join(\"-\")); console.log(\"x y\".split().length);";
    assert_eq!(printed(src), vec!["4", "a-b--c", "2"]);
}

#[test]
fn dump_prints_each_argument() {
    assert_eq!(printed("intrinsics.dump(1, \"two\", [3]);"), vec!["1", "two", "[array]"]);
}

#[test]
fn array_element_assignment() {
    assert_eq!(printed("let a = [1, 2]; a[1] = 5; console.log(a.join());"), vec!["1,5"]);
}

#[test]
fn break_and_continue() {
    let src = "for (let i = 0; i < 10; i = i + 1) { if (i == 1) { continue; } if (i == 3) { break; } console.log(i); }";
    assert_eq!(printed(src), vec!["0", "2"]);
}

#[test]
fn increment_and_compound_assignment() {
    let src = "let i = 5; console.log(i++); console.log(i); i--; i += 10; i *= 2; console.log(i);";
    assert_eq!(printed(src), vec!["5", "6", "30"]);
}

#[test]
fn let_shadows_in_inner_block() {
    let src = "let x = 1; { let x = 2; console.log(x); } console.log(x);";
    assert_eq!(printed(src), vec!["2", "1"]);
}

#[test]
fn assignment_to_unbound_name_is_a_name_error() {
    assert_eq!(failure("y = 1;"), Error::Runtime(RuntimeError::Name));
}

#[test]
fn endless_loop_runs_out_of_fuel() {
    let (_, outcome) = run_source_with_fuel("while (true) { }", false, 1000);
    assert_eq!(outcome, Err(Error::Runtime(RuntimeError::OutOfFuel)));
}

#[test]
fn output_before_an_error_is_kept() {
    let (out, outcome) = run_source("console.log(1); nothing;", false);
    assert_eq!(out, vec!["1"]);
    assert_eq!(outcome, Err(Error::Runtime(RuntimeError::Name)));
}

#[test]
fn parse_error_reports_position() {
    match run_source("let = 3;", false).1 {
        Err(Error::Parse(p)) => assert_eq!(p.position, 1),
        other => panic!("expected a parse error, got {:?}", other),
    }
}

#[test]
fn unterminated_string_is_a_lex_error() {
    assert_eq!(run_source("let s = \"abc;", false).1, Err(Error::Lex(jsinterp::lexer::LexError::UnterminatedString)));
}

#[test]
fn equality_compares_contents_without_coercion() {
    let src = "console.log(1 == \"1\"); console.log([1, 2] == [1, 2]); console.log([1, 2] == [1, 3]); console.log([1, 2] == [1, 2, 3]); console.log(null != undefined);";
    assert_eq!(printed(src), vec!["false", "true", "false", "false", "true"]);
}

#[test]
fn equality_descends_into_nested_values() {
    let src = "console.log([[1], {k: [2]}] == [[1], {k: [2]}]); console.log({a: 1, b: 2} == {b: 2, a: 1}); console.log({a: [1]} == {a: [1]});";
    assert_eq!(printed(src), vec!["true", "false", "true"]);
}

#[test]
fn equality_of_functions_is_by_code() {
    let src = "function f(a) { return a; } function g(a) { return a; } function h(b) { return b; } console.log(f == g); console.log(f == h); console.log(console.log == console.log); console.log(console.log == Math.max);";
    assert_eq!(printed(src), vec!["true", "false", "true", "false"]);
}

#[test]
fn bound_methods_are_equal_when_receivers_are() {
    let src = "let a = [1]; let b = [1]; let c = [2]; console.log(a.push == b.push); console.log(a.push == c.push); console.log(a.push == a.pop);";
    assert_eq!(printed(src), vec!["true", "false", "false"]);
}

#[test]
fn a_cyclic_array_equals_itself() {
    let src = "let a = [1]; a.push(a); console.log(a == a); let b = a; console.log(a == b);";
    assert_eq!(printed(src), vec!["true", "true"]);
}

#[test]
fn optimizer_respects_shadowing() {
    let programs = [
        "let x = 1; { let x = 2; let y = x; console.log(y); }",
        "let x = 1; let y = x; let x = 5; let z = x; console.log(y); console.log(z);",
        "let n = 5; function f(n) { let m = n; return m; } console.log(f(3));",
        "let i = 7; for (let i = 0; i < 2; i = i + 1) { let k = i; console.log(k); } console.log(i);",
        "let x = 1; { let x = 2; x = 3; let y = x; console.log(y); } console.log(x);",
    ];
    for src in programs {
        assert_eq!(printed(src), printed_optimized(src), "program {}", src);
    }
}
