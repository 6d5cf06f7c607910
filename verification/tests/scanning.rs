use formula::formula::{FormulaNode, OperatorNode};
use formula::message::chars_of;
use formula::scanner::{
    find_end_brace_without_parse, parse_formula, scan_const, scan_node, scan_split_node,
    scan_variant, skip_space,
};
use std::rc::Rc;

fn scan(text: &str) -> FormulaNode {
    parse_formula(&chars_of(text))
}

fn shape(node: &FormulaNode) -> String {
    match node {
        FormulaNode::Variant(name) => name.clone(),
        FormulaNode::Constant(bits) => format!("{}", f64::from_bits(*bits)),
        FormulaNode::Bool(b) => format!("{}", b),
        FormulaNode::Operator(op) => match &**op {
            OperatorNode::Plus { left, right } => format!("({} + {})", shape(left), shape(right)),
            OperatorNode::Minus { left, right } => format!("({} - {})", shape(left), shape(right)),
            OperatorNode::Divide { left, right } => format!("({} / {})", shape(left), shape(right)),
            OperatorNode::Multiply { left, right } => {
                format!("({} * {})", shape(left), shape(right))
            }
            OperatorNode::Less { left, right } => format!("({} < {})", shape(left), shape(right)),
            OperatorNode::LessEqual { left, right } => {
                format!("({} <= {})", shape(left), shape(right))
            }
            OperatorNode::Great { left, right } => format!("({} > {})", shape(left), shape(right)),
            OperatorNode::GreatEqual { left, right } => {
                format!("({} >= {})", shape(left), shape(right))
            }
            OperatorNode::Equal { left, right } => format!("({} = {})", shape(left), shape(right)),
            OperatorNode::Not(inner) => format!("!{}", shape(inner)),
            OperatorNode::And { left, right } => format!("({} && {})", shape(left), shape(right)),
            OperatorNode::Or { left, right } => format!("({} || {})", shape(left), shape(right)),
        },
        FormulaNode::FunctionCall { name, args } => format!("{}({})", name, shapes(args, ", ")),
        FormulaNode::Function { name, args, expressions } => {
            format!("{}({}) {{{}}}", name, shapes(args, ", "), shapes(expressions, "; "))
        }
        FormulaNode::BuildInFunction { func } => format!("native {}", func),
        FormulaNode::Arg { name, value } => format!("{}: {}", name, shape(value)),
        FormulaNode::Formula { name, formula } => format!("{} := {}", name, shape(formula)),
        FormulaNode::UnKnow(reason) => format!("<{}>", reason),
        FormulaNode::Quote(inner) => format!("[{}]", shape(inner)),
        FormulaNode::Empty => "empty".to_string(),
    }
}

fn shapes(nodes: &Vec<Rc<FormulaNode>>, between: &str) -> String {
    nodes.iter().map(|n| shape(n)).collect::<Vec<String>>().join(between)
}

#[test]
fn spaces_and_line_ends_are_passed() {
    let chars = chars_of("  \r\n x  ");
    assert_eq!(skip_space(&chars, 0), 5);
    assert_eq!(skip_space(&chars, 5), 5);
    assert_eq!(skip_space(&chars, 6), 8);
    assert_eq!(skip_space(&chars, 8), 8);
    assert_eq!(skip_space(&chars, 20), 20);
    assert_eq!(skip_space(&chars_of("\tx"), 0), 0);
}

#[test]
fn brackets_are_matched_by_their_depth() {
    let chars = chars_of("(a (b) [c] {d}) e");
    let (sub, next) = find_end_brace_without_parse(&chars, 0);
    assert_eq!(sub.iter().collect::<String>(), "a (b) [c] {d}");
    assert_eq!(next, 15);
    let (sub, next) = find_end_brace_without_parse(&chars, 3);
    assert_eq!(sub.iter().collect::<String>(), "b");
    assert_eq!(next, 6);
    let open = chars_of("(a (b)");
    let (sub, next) = find_end_brace_without_parse(&open, 0);
    assert_eq!(sub.iter().collect::<String>(), "a (b)");
    assert_eq!(next, 6);
    let (sub, next) = find_end_brace_without_parse(&open, 9);
    assert!(sub.is_empty());
    assert_eq!(next, 9);
    let (sub, next) = find_end_brace_without_parse(&chars_of("()"), 0);
    assert!(sub.is_empty());
    assert_eq!(next, 2);
}

#[test]
fn arguments_are_split_outside_brackets_only() {
    let parts = scan_split_node(&chars_of("a, f(b, c), [d + e], g(x) { x; 1 }"), ',');
    assert_eq!(shapes(&parts, " | "), "a | f(b, c) | (d + e) | g(x) {x; 1}");
    let parts = scan_split_node(&chars_of("a; f(x) { b; c }; d"), ';');
    assert_eq!(shapes(&parts, " | "), "a | f(x) {b; c} | d");
    let parts = scan_split_node(&chars_of("a,,b,"), ',');
    assert_eq!(shapes(&parts, " | "), "a | empty | b");
    assert!(scan_split_node(&chars_of(""), ',').is_empty());
    let parts = scan_split_node(&chars_of(" "), ',');
    assert_eq!(shapes(&parts, " | "), "empty");
    let parts = scan_split_node(&chars_of("y := x + 1; y * 2 "), ';');
    assert_eq!(shapes(&parts, " | "), "y := (x + 1) | (y * 2)");
}

#[test]
fn numbers_are_read_as_binary64() {
    let cases = [
        ("1", 1.0),
        ("42", 42.0),
        ("0.5", 0.5),
        (".5", 0.5),
        ("5.", 5.0),
        ("1.25", 1.25),
        ("0.1", 0.1),
        ("123456789.125", 123456789.125),
        ("3.141592653589793", 3.141592653589793),
        ("0.30000000000000004", 0.30000000000000004),
        ("1797693134862315700000000000000000000000000000000", 1.7976931348623157e48),
        ("0.000000000000000000000000000001", 1e-30),
        ("007", 7.0),
    ];
    for (text, expected) in cases {
        let (node, next) = scan_const(&chars_of(text), 0);
        match node {
            FormulaNode::Constant(bits) => assert_eq!(bits, f64::to_bits(expected), "{}", text),
            other => panic!("{}: {:?}", text, other),
        }
        assert_eq!(next, text.chars().count());
    }
    let (node, next) = scan_const(&chars_of("12.5+1"), 0);
    assert_eq!(shape(&node), "12.5");
    assert_eq!(next, 4);
    assert_eq!(shape(&scan_const(&chars_of("."), 0).0), "empty");
    assert_eq!(shape(&scan_const(&chars_of("1.2.3"), 0).0), "<not a number: 1.2.3>");
    assert_eq!(shape(&scan_const(&chars_of(".."), 0).0), "<not a number: .>");
    assert_eq!(shape(&scan_const(&chars_of("x"), 0).0), "empty");
}

#[test]
fn names_lose_the_spaces_at_their_end() {
    let (node, next) = scan_variant(&chars_of("my var  + 1"), 0);
    assert_eq!(shape(&node), "my var");
    assert_eq!(next, 8);
    let (node, next) = scan_variant(&chars_of("a_1"), 0);
    assert_eq!(shape(&node), "a_1");
    assert_eq!(next, 3);
    assert!(matches!(scan_variant(&chars_of("true "), 0).0, FormulaNode::Bool(true)));
    assert!(matches!(scan_variant(&chars_of("false"), 0).0, FormulaNode::Bool(false)));
    assert_eq!(shape(&scan_variant(&chars_of("truely"), 0).0), "truely");
    assert_eq!(shape(&scan_variant(&chars_of("+"), 0).0), "empty");
}

#[test]
fn formulas_scan_to_their_trees() {
    let cases = [
        ("1 + 2 * 3", "(1 + (2 * 3))"),
        ("2 * 3 + 1", "(2 * (3 + 1))"),
        ("(1 + 2) * 3", "((1 + 2) * 3)"),
        ("[1 + 2] / 3", "((1 + 2) / 3)"),
        ("a - b - c", "(a - (b - c))"),
        ("A := 1", "A := 1"),
        ("total := price * (1 + tax)", "total := (price * (1 + tax))"),
        ("f(1, g(2, 3), x)", "f(1, g(2, 3), x)"),
        ("f()", "f()"),
        ("f (1)", "f(1)"),
        ("f(x, y) { z := x + y; z * 2 }", "f(x, y) {z := (x + y); (z * 2)}"),
        ("f(x) {}", "f(x) {}"),
        ("a > b", "(a > b)"),
        ("a >= b", "(a >= b)"),
        ("a < b", "(a < b)"),
        ("a <= b", "(a <= b)"),
        ("a = b", "(a = b)"),
        ("a == b", "(a = b)"),
        ("a>=b+1", "(a >= (b + 1))"),
        ("!a", "!a"),
        ("^a", "!a"),
        ("!a + b", "(!a + b)"),
        ("a && b", "(a && b)"),
        ("a || b", "(a || b)"),
        ("a && b || c", "((a && b) || c)"),
        ("a && b + 1", "((a && b) + 1)"),
        ("true && 0", "(true && 0)"),
        ("1; 2", "2"),
        ("1 + 2; 3", "3"),
        ("", "empty"),
        ("   ", "empty"),
        (";", "empty"),
        ("()", "empty"),
        ("1 +", "(1 + empty)"),
        ("!", "!empty"),
        ("x {1}", "<a function body must follow a name and its parameters>"),
        ("true(1)", "<only a name can be called>"),
        ("a & b", "<'&' must be followed by '&'>"),
        ("a | b", "<'|' must be followed by '|'>"),
        ("a # b", "<illegal symbol: #>"),
        (":= 1", "<a name must stand before ':='>"),
        ("a : 1", "<':' must be followed by '='>"),
        ("a :", "<':' must be followed by '='>"),
        ("a :=", "<no formula follows ':='>"),
        ("1 := 2", "<only a name can be given a formula>"),
        ("+ 1", "<an operator needs a left operand>"),
        ("> 1", "<an operator needs a left operand>"),
        ("&& 1", "<an operator needs a left operand>"),
        ("|| 1", "<an operator needs a left operand>"),
        ("a >", "<nothing follows the comparison>"),
        ("1 + #", "<illegal symbol: #>"),
        ("1 + (#)", "(1 + <illegal symbol: #>)"),
        ("f(#)", "f(<illegal symbol: #>)"),
        ("1.2.3 + 1", "<not a number: 1.2.3>"),
    ];
    for (text, expected) in cases {
        assert_eq!(shape(&scan(text)), expected, "{}", text);
    }
}

#[test]
fn a_fault_ends_the_scan() {
    assert_eq!(shape(&scan("a # b; 1")), "<illegal symbol: #>");
    assert_eq!(shape(&scan("1; a & b; 2")), "<'&' must be followed by '&'>");
}

#[test]
fn a_limited_scan_stops_behind_the_first_node() {
    let chars = chars_of("a + b");
    let (node, next) = scan_node(&chars, 0, true);
    assert_eq!(shape(&node), "a");
    assert_eq!(next, 2);
    let (node, next) = scan_node(&chars, 0, false);
    assert_eq!(shape(&node), "(a + b)");
    assert_eq!(next, 5);
    let (node, next) = scan_node(&chars, 5, false);
    assert_eq!(shape(&node), "empty");
    assert_eq!(next, 5);
    let (node, next) = scan_node(&chars_of("1; 2"), 0, false);
    assert_eq!(shape(&node), "1");
    assert_eq!(next, 2);
}
