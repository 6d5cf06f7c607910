use formula::calculator::{CalculateOption, CalculateResult, CallStack, FormulaCalc};
use formula::env::Env;
use formula::formula::{FormulaNode, FuncContext, NativeFunction, NoNative, OperatorNode};
use formula::parser::Parser;
use std::rc::Rc;

fn num(x: f64) -> CalculateOption {
    CalculateOption::Num(x.to_bits())
}

fn plain() -> Parser<NoNative> {
    Parser::new()
}

fn run(parser: &mut Parser<NoNative>, text: &str) -> CalculateResult {
    parser.calculate(text.to_string())
}

fn is_num(result: &CalculateResult, expected: f64) -> bool {
    match result.value {
        CalculateOption::Num(bits) => f64::from_bits(bits) == expected,
        _ => false,
    }
}

fn fault_of(result: &CalculateResult) -> String {
    match &result.value {
        CalculateOption::Error(text) => text.clone(),
        other => panic!("no fault: {:?}", other),
    }
}

struct Add;

impl NativeFunction for Add {
    fn call(&self, c: &FuncContext<'_, Add>, stack: &mut CallStack) -> CalculateOption {
        assert_eq!(c.args.len(), 2);
        match (
            c.args.get(0).unwrap().calc(c.env, stack, c.depth),
            c.args.get(1).unwrap().calc(c.env, stack, c.depth),
        ) {
            (CalculateOption::Num(f1), CalculateOption::Num(f2)) => {
                CalculateOption::Num((f64::from_bits(f1) + f64::from_bits(f2)).to_bits())
            }
            _ => panic!("Add 函数接收了错误的参数信息"),
        }
    }
}

#[test]
fn test_parser() {
    let mut parser = plain();
    parser.parse("A := 1".to_string());
    parser.parse("B := 2".to_string());
    assert!(parser.calculate("A + B".to_string()).value.eq(&num(3.0)));
}

#[test]
fn test_build_in() {
    let mut parser: Parser<Add> = Parser::new();
    parser.parse("A := 1; B := 2;".to_string());
    parser.reg_build_in("Add", Add);
    let result = parser.calculate("Add(A, B)".to_string());
    assert_eq!(result.value, num(3.0));
}

#[test]
fn test_delay() {}

#[test]
fn named_formulas_are_kept_between_calls() {
    let mut parser = plain();
    parser.parse("A := 1".to_string());
    parser.parse("B := 2".to_string());
    let result = run(&mut parser, "A + B");
    assert!(is_num(&result, 3.0));
    assert!(result.more.is_empty());
    parser.parse("A := 10".to_string());
    assert!(is_num(&run(&mut parser, "A + B"), 12.0));
}

#[test]
fn native_call_is_recorded_once() {
    let mut parser: Parser<Add> = Parser::new();
    parser.parse("A := 1; B := 2;".to_string());
    parser.reg_build_in("Add", Add);
    let result = parser.calculate("Add(A, B)".to_string());
    assert_eq!(result.value, num(3.0));
    assert_eq!(result.more.len(), 1);
    assert_eq!(result.more[0].op, "BuildInFunction");
    assert_eq!(result.more[0].func, "Add");
    assert_eq!(result.more[0].args.len(), 2);
    assert!(matches!(&*result.more[0].args[0], FormulaNode::Variant(name) if name == "A"));
    assert!(matches!(&*result.more[0].args[1], FormulaNode::Variant(name) if name == "B"));
}

#[test]
fn native_sees_the_raw_arguments_and_the_scope_of_the_caller() {
    let mut parser: Parser<Add> = Parser::new();
    parser.reg_build_in("Add", Add);
    parser.parse("inc(x) { x + 1 }".to_string());
    parser.parse("twice(x) { Add(x, inc(x)) }".to_string());
    let result = parser.calculate("twice(5)".to_string());
    assert_eq!(result.value, num(11.0));
    let names: Vec<(&str, &str)> =
        result.more.iter().map(|r| (r.op.as_str(), r.func.as_str())).collect();
    assert_eq!(
        names,
        vec![("FunctionCall", "twice"), ("BuildInFunction", "Add"), ("FunctionCall", "inc")]
    );
}

#[test]
fn unresolved_name_is_named_in_the_fault() {
    let mut parser = plain();
    let result = run(&mut parser, "X");
    assert!(fault_of(&result).contains("X"));
    assert_eq!(fault_of(&result), "cannot resolve the name X");
}

#[test]
fn wrong_number_of_arguments_is_a_fault() {
    let mut parser = plain();
    parser.parse("f(a, b) { a + b }".to_string());
    let one = run(&mut parser, "f(1)");
    assert_eq!(fault_of(&one), "wrong number of arguments for function f");
    let three = run(&mut parser, "f(1, 2, 3)");
    assert_eq!(fault_of(&three), "wrong number of arguments for function f");
    assert_eq!(three.more.len(), 1);
    assert!(is_num(&run(&mut parser, "f(1, 2)"), 3.0));
}

#[test]
fn logical_operators_keep_the_operand() {
    let mut parser = plain();
    assert_eq!(run(&mut parser, "true && 0").value, num(0.0));
    assert!(matches!(run(&mut parser, "true && 0").value, CalculateOption::Num(0)));
    assert_eq!(run(&mut parser, "5 || false").value, num(5.0));
    assert!(matches!(run(&mut parser, "false && 7").value, CalculateOption::Bool(false)));
    assert!(matches!(run(&mut parser, "0 || false").value, CalculateOption::Bool(false)));
    assert_eq!(run(&mut parser, "0 && 7").value, num(0.0));
    assert_eq!(run(&mut parser, "3 && 7").value, num(7.0));
    assert_eq!(run(&mut parser, "0 || 7").value, num(7.0));
    assert_eq!(run(&mut parser, "3 || 7").value, num(3.0));
    assert!(matches!(run(&mut parser, "true && false").value, CalculateOption::Bool(false)));
    assert!(matches!(run(&mut parser, "false || true").value, CalculateOption::Bool(true)));
}

#[test]
fn operators_fold_from_left_to_right() {
    let mut parser = plain();
    assert!(is_num(&run(&mut parser, "1 + 2 * 3"), 7.0));
    assert!(is_num(&run(&mut parser, "2 * 3 + 1"), 8.0));
    assert!(is_num(&run(&mut parser, "10 - 2 - 3"), 11.0));
    let node = parser.parse("2 * 3 + 1".to_string());
    match &*node {
        FormulaNode::Operator(op) => match &**op {
            OperatorNode::Multiply { left, right } => {
                assert!(matches!(&**left, FormulaNode::Constant(_)));
                match &**right {
                    FormulaNode::Operator(inner) => {
                        assert!(matches!(&**inner, OperatorNode::Plus { .. }))
                    }
                    other => panic!("no operator: {:?}", other),
                }
            }
            other => panic!("no product: {:?}", other),
        },
        other => panic!("no operator: {:?}", other),
    }
}

#[test]
fn groups_are_scanned_on_their_own() {
    let mut parser = plain();
    assert!(is_num(&run(&mut parser, "(1 + 2) * 3"), 9.0));
    assert!(is_num(&run(&mut parser, "[1 + 2] * 3"), 9.0));
    assert!(is_num(&run(&mut parser, "((1 + 2) * (3 + 4)) / 7"), 3.0));
    assert!(is_num(&run(&mut parser, "2 * (3 + 1)"), 8.0));
}

#[test]
fn trace_has_one_record_for_each_call_in_call_order() {
    let mut parser = plain();
    parser.parse("f(x) { x + 1 }".to_string());
    parser.parse("g(x) { f(x) * 2 }".to_string());
    let result = run(&mut parser, "g(1) + f(2)");
    assert!(is_num(&result, 7.0));
    let names: Vec<&str> = result.more.iter().map(|r| r.func.as_str()).collect();
    assert_eq!(names, vec!["g", "f", "f"]);
    assert!(result.more.iter().all(|r| r.op == "FunctionCall"));
    assert!(matches!(&*result.more[0].args[0], FormulaNode::Constant(_)));
    assert!(matches!(&*result.more[1].args[0], FormulaNode::Variant(name) if name == "x"));
    let none = run(&mut parser, "1 + 2");
    assert!(none.more.is_empty());
    let second = run(&mut parser, "f(1)");
    assert_eq!(second.more.len(), 1);
}

#[test]
fn arithmetic_is_that_of_binary64() {
    let mut parser = plain();
    assert!(is_num(&run(&mut parser, "0.1 + 0.2"), 0.1 + 0.2));
    assert!(is_num(&run(&mut parser, "1 / 3"), 1.0 / 3.0));
    assert!(is_num(&run(&mut parser, "7 - 10"), -3.0));
    assert!(is_num(&run(&mut parser, "1.5 * 2.5"), 3.75));
    assert!(is_num(&run(&mut parser, "1 / 0"), f64::INFINITY));
    match run(&mut parser, "0 / 0").value {
        CalculateOption::Num(bits) => assert!(f64::from_bits(bits).is_nan()),
        other => panic!("no number: {:?}", other),
    }
}

#[test]
fn comparisons_give_truth_values() {
    let mut parser = plain();
    let cases = [
        ("1 < 2", true),
        ("2 < 1", false),
        ("2 <= 2", true),
        ("3 <= 2", false),
        ("3 > 2", true),
        ("2 > 2", false),
        ("2 >= 2", true),
        ("1 >= 2", false),
        ("2 = 2", true),
        ("2 == 2", true),
        ("2 = 3", false),
        ("(0 / 0) = (0 / 0)", false),
        ("1 < 2 + 3", true),
    ];
    for (text, expected) in cases {
        match run(&mut parser, text).value {
            CalculateOption::Bool(b) => assert_eq!(b, expected, "{}", text),
            other => panic!("{}: {:?}", text, other),
        }
    }
}

#[test]
fn not_turns_truth_values_and_tests_numbers_for_zero() {
    let mut parser = plain();
    assert!(matches!(run(&mut parser, "!true").value, CalculateOption::Bool(false)));
    assert!(matches!(run(&mut parser, "^false").value, CalculateOption::Bool(true)));
    assert!(matches!(run(&mut parser, "!0").value, CalculateOption::Bool(true)));
    assert!(matches!(run(&mut parser, "!5").value, CalculateOption::Bool(false)));
    parser.parse("f(x) { x }".to_string());
    assert_eq!(fault_of(&run(&mut parser, "!f")), "wrong kind of operand for !");
}

#[test]
fn function_body_binds_its_named_expressions() {
    let mut parser = plain();
    parser.parse("f(x) { y := x + 1; y * 2 }".to_string());
    assert!(is_num(&run(&mut parser, "f(3)"), 8.0));
    parser.parse("g(x) { x + 1; x * 2 }".to_string());
    assert!(is_num(&run(&mut parser, "g(3)"), 6.0));
    parser.parse("h() {}".to_string());
    assert!(matches!(run(&mut parser, "h()").value, CalculateOption::NoValue));
    parser.parse("blank() { }".to_string());
    assert_eq!(fault_of(&run(&mut parser, "blank()")), "this expression cannot be evaluated");
    parser.parse("flag(x) { big := x > 10; big && x }".to_string());
    assert!(is_num(&run(&mut parser, "flag(11)"), 11.0));
    assert!(matches!(run(&mut parser, "flag(1)").value, CalculateOption::Bool(false)));
}

#[test]
fn arguments_are_evaluated_in_the_scope_of_the_caller() {
    let mut parser = plain();
    parser.parse("x := 100".to_string());
    parser.parse("f(y) { x + y }".to_string());
    parser.parse("g(x) { f(x + 1) }".to_string());
    assert!(is_num(&run(&mut parser, "f(1)"), 101.0));
    assert!(is_num(&run(&mut parser, "g(1)"), 3.0));
    parser.parse("shadow(x) { x * 2 }".to_string());
    assert!(is_num(&run(&mut parser, "shadow(4)"), 8.0));
    assert!(is_num(&run(&mut parser, "x"), 100.0));
}

#[test]
fn a_function_is_passed_by_its_name() {
    let mut parser = plain();
    parser.parse("inc(x) { x + 1 }".to_string());
    parser.parse("apply(f, x) { f(x) }".to_string());
    let result = run(&mut parser, "apply(inc, 2)");
    assert!(is_num(&result, 3.0));
    let names: Vec<&str> = result.more.iter().map(|r| r.func.as_str()).collect();
    assert_eq!(names, vec!["apply", "f"]);
    assert!(matches!(run(&mut parser, "inc").value, CalculateOption::Func));
}

#[test]
fn names_may_hold_single_spaces() {
    let mut parser = plain();
    parser.parse("unit price := 4".to_string());
    parser.parse("amount_1 := 3".to_string());
    assert!(is_num(&run(&mut parser, "unit price * amount_1"), 12.0));
    let node = parser.parse("  unit price  ".to_string());
    assert!(matches!(&*node, FormulaNode::Variant(name) if name == "unit price"));
}

#[test]
fn aliases_are_followed() {
    let mut parser = plain();
    parser.parse("A := 5".to_string());
    parser.parse("B := A".to_string());
    parser.parse("C := B".to_string());
    assert!(is_num(&run(&mut parser, "C + 1"), 6.0));
}

#[test]
fn every_fault_of_evaluation_has_its_text() {
    let mut parser = plain();
    parser.parse("f(x) { x }".to_string());
    parser.parse("A := 1".to_string());
    assert_eq!(
        fault_of(&run(&mut parser, "nothing(1)")),
        "no function is defined under the name nothing"
    );
    assert!(run(&mut parser, "nothing(1)").more.is_empty());
    assert_eq!(fault_of(&run(&mut parser, "A(1)")), "not a function: A");
    assert_eq!(fault_of(&run(&mut parser, "1 + true")), "wrong kind of operand for +");
    assert_eq!(fault_of(&run(&mut parser, "f < 1")), "wrong kind of operand for <");
    assert_eq!(fault_of(&run(&mut parser, "f && 1")), "wrong kind of operand for &&");
    assert_eq!(fault_of(&run(&mut parser, "")), "this expression cannot be evaluated");
    assert_eq!(
        fault_of(&run(&mut parser, "f(missing)")),
        "an argument failed for function f: cannot resolve the name missing"
    );
    parser.parse("empty() {}".to_string());
    assert_eq!(
        fault_of(&run(&mut parser, "f(empty())")),
        "an argument has no value for function f"
    );
    parser.parse("bad(1) { 2 }".to_string());
    assert_eq!(fault_of(&run(&mut parser, "bad(1)")), "a parameter is no name in function bad");
    assert_eq!(
        fault_of(&run(&mut parser, "f(g(x) { x })")),
        "a function is passed by its name only, to function f"
    );
    parser.parse("body(x) { y := missing; 1 }".to_string());
    assert_eq!(
        fault_of(&run(&mut parser, "body(1)")),
        "a named expression of a function body gave neither a number nor a truth value"
    );
    assert_eq!(fault_of(&run(&mut parser, "missing + f")), "cannot resolve the name missing");
    assert_eq!(fault_of(&run(&mut parser, "missing + other")), "cannot resolve the name missing");
    assert_eq!(fault_of(&run(&mut parser, "1 + other")), "cannot resolve the name other");
}

#[test]
fn endless_recursion_ends_in_a_fault() {
    let mut parser = plain();
    parser.parse("A := A + 1".to_string());
    assert_eq!(fault_of(&run(&mut parser, "A")), "recursion limit exceeded");
    parser.parse("loop(x) { loop(x + 1) }".to_string());
    let result = run(&mut parser, "loop(0)");
    assert_eq!(fault_of(&result), "recursion limit exceeded");
    assert_eq!(result.more.len(), 201);
    parser.set_max_depth(3);
    assert_eq!(run(&mut parser, "loop(0)").more.len(), 4);
    parser.parse("fine(x) { x }".to_string());
    assert!(is_num(&run(&mut parser, "fine(fine(fine(fine(fine(1)))))"), 1.0));
    parser.set_max_depth(0);
    assert_eq!(fault_of(&run(&mut parser, "fine(1)")), "recursion limit exceeded");
    assert!(is_num(&run(&mut parser, "1 + 1"), 2.0));
}

#[test]
fn unregistered_native_is_a_fault() {
    let mut root: Env<NoNative> = Env::new();
    root.set("ghost", Rc::new(FormulaNode::BuildInFunction { func: "ghost".to_string() }));
    let call = FormulaNode::FunctionCall { name: "ghost".to_string(), args: Vec::new() };
    let mut stack = CallStack::new();
    match call.calc(&root, &mut stack, 5) {
        CalculateOption::Error(text) => {
            assert_eq!(text, "no native function is registered under the name ghost")
        }
        other => panic!("no fault: {:?}", other),
    }
    let records = stack.call_stack();
    assert_eq!(records.len(), 1);
    assert_eq!(records[0].op, "BuildInFunction");
}

#[test]
fn native_is_found_as_any_other_name_is() {
    let mut parser: Parser<Add> = Parser::new();
    parser.reg_build_in("Add", Add);
    assert!(matches!(
        &*parser.parse("Add".to_string()),
        FormulaNode::Variant(name) if name == "Add"
    ));
    assert_eq!(
        fault_of(&parser.calculate("Add".to_string())),
        "this expression cannot be evaluated"
    );
    let result = parser.calculate("Add(1, 2)".to_string());
    assert_eq!(result.value, num(3.0));
    parser.parse("Add(a, b) { a * b }".to_string());
    let result = parser.calculate("Add(3, 4)".to_string());
    assert_eq!(result.value, num(12.0));
    assert_eq!(result.more[0].op, "FunctionCall");
}

struct Choose;

impl NativeFunction for Choose {
    fn call(&self, c: &FuncContext<'_, Choose>, stack: &mut CallStack) -> CalculateOption {
        if c.args.len() != 3 {
            return CalculateOption::Error("Choose takes three arguments".to_string());
        }
        let first = match c.args[0].calc(c.env, stack, c.depth) {
            CalculateOption::Bool(b) => b,
            CalculateOption::Num(bits) => f64::from_bits(bits) != 0.0,
            other => return other,
        };
        if first {
            c.args[1].calc(c.env, stack, c.depth)
        } else {
            c.args[2].calc(c.env, stack, c.depth)
        }
    }
}

#[test]
fn native_decides_which_arguments_are_evaluated() {
    let mut parser: Parser<Choose> = Parser::new();
    parser.reg_build_in("Choose", Choose);
    parser.parse("one() { 1 }".to_string());
    parser.parse("two() { 2 }".to_string());
    let result = parser.calculate("Choose(1 < 2, one(), two())".to_string());
    assert_eq!(result.value, num(1.0));
    let names: Vec<&str> = result.more.iter().map(|r| r.func.as_str()).collect();
    assert_eq!(names, vec!["Choose", "one"]);
    let result = parser.calculate("Choose(0, one(), two()) + 10".to_string());
    assert_eq!(result.value, num(12.0));
    let names: Vec<&str> = result.more.iter().map(|r| r.func.as_str()).collect();
    assert_eq!(names, vec!["Choose", "two"]);
    parser.parse("fact(n) { Choose(n < 2, 1, n * fact(n - 1)) }".to_string());
    let result = parser.calculate("fact(5)".to_string());
    assert_eq!(result.value, num(120.0));
    assert_eq!(result.more.len(), 10);
    assert_eq!(
        fault_of(&parser.calculate("Choose(1)".to_string())),
        "Choose takes three arguments"
    );
}

#[test]
fn trait_evaluates_as_the_node_does() {
    let root: Env<NoNative> = Env::new();
    let mut stack = CallStack::new();
    let node = FormulaNode::Operator(Box::new(OperatorNode::Plus {
        left: Box::new(FormulaNode::Constant(1.0f64.to_bits())),
        right: Box::new(FormulaNode::Constant(2.0f64.to_bits())),
    }));
    let by_trait = <FormulaNode as FormulaCalc>::calc(&node, &root, &mut stack, 5);
    assert_eq!(by_trait, num(3.0));
    match &node {
        FormulaNode::Operator(op) => {
            let by_operator = <OperatorNode as FormulaCalc>::calc(&**op, &root, &mut stack, 5);
            assert_eq!(by_operator, num(3.0));
        }
        _ => unreachable!(),
    }
    assert!(stack.call_stack().is_empty());
}

#[test]
fn any_text_is_scanned_and_evaluated_to_an_end() {
    let alphabet: Vec<char> =
        "ab_ 1290.+-*/<>=!^&|()[]{}:;,#\n".chars().collect();
    let mut state: u64 = 0x2545F4914F6CDD1D;
    let mut next = move || {
        state ^= state << 13;
        state ^= state >> 7;
        state ^= state << 17;
        state
    };
    let mut parser = plain();
    parser.set_max_depth(20);
    for _ in 0..3000 {
        let length = (next() % 24) as usize;
        let text: String =
            (0..length).map(|_| alphabet[(next() % alphabet.len() as u64) as usize]).collect();
        let result = parser.calculate(text.clone());
        assert!(result.more.len() <= 100_000, "{}", text);
    }
}
