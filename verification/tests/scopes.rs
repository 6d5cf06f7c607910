use formula::calculator::{CalculateOption, CallStack};
use formula::env::{DelayInfo, Env, EnvValue};
use formula::formula::{FormulaNode, NoNative};
use std::rc::Rc;
use std::time::Duration;

fn constant(x: f64) -> Rc<FormulaNode> {
    Rc::new(FormulaNode::Constant(x.to_bits()))
}

fn value_of(node: Option<Rc<FormulaNode>>) -> Option<f64> {
    node.map(|n| match &*n {
        FormulaNode::Constant(bits) => f64::from_bits(*bits),
        other => panic!("no constant: {:?}", other),
    })
}

#[test]
fn innermost_scope_wins() {
    let mut root: Env<NoNative> = Env::new();
    assert!(root.get("a").is_none());
    assert!(root.set("a", constant(1.0)).is_none());
    root.set("b", constant(2.0));
    let mut inner = Env::extend(&root);
    assert_eq!(value_of(inner.get("a")), Some(1.0));
    assert!(inner.set("a", constant(10.0)).is_none());
    assert_eq!(value_of(inner.get("a")), Some(10.0));
    assert_eq!(value_of(inner.get("b")), Some(2.0));
    assert!(inner.get("c").is_none());
    let innermost = Env::extend(&inner);
    assert_eq!(value_of(innermost.get("a")), Some(10.0));
    assert_eq!(value_of(root.get("a")), Some(1.0));
}

#[test]
fn set_hands_back_what_the_scope_bound_before() {
    let mut root: Env<NoNative> = Env::new();
    root.set("a", constant(1.0));
    let prior = root.set("a", constant(2.0)).unwrap();
    assert_eq!(value_of(Some(prior.node)), Some(1.0));
    let prior = root.insert("a", constant(3.0)).unwrap();
    assert_eq!(value_of(Some(prior.node)), Some(2.0));
    assert_eq!(value_of(root.get("a")), Some(3.0));
    assert!(root.insert("b", constant(4.0)).is_none());
    assert_eq!(value_of(root.get("a")), Some(3.0));
    assert_eq!(value_of(root.get("b")), Some(4.0));
}

#[test]
fn noted_values_are_kept_with_the_name() {
    let mut root: Env<NoNative> = Env::new();
    root.set("a", constant(1.0));
    let before = root.set_node_value("a", CalculateOption::Num(5));
    assert!(matches!(before, CalculateOption::NoValue));
    let before = root.set_node_value("a", CalculateOption::Bool(true));
    assert!(matches!(before, CalculateOption::Num(5)));
    assert!(matches!(root.set_node_value("b", CalculateOption::Func), CalculateOption::NoValue));
    assert!(root.get("b").is_none());
    assert_eq!(value_of(root.get("a")), Some(1.0));
}

#[test]
fn registry_is_found_from_inner_scopes() {
    let mut root: Env<NoNative> = Env::new();
    assert!(root.get_build_in("f").is_none());
    root.set_build_in("f", NoNative {});
    assert!(root.get_build_in("f").is_some());
    assert!(matches!(&*root.get("f").unwrap(), FormulaNode::BuildInFunction { func } if func == "f"));
    root.set_build_in("f", NoNative {});
    assert!(root.get_build_in("f").is_some());
    assert!(root.get_build_in("g").is_none());
    let mut inner = Env::extend(&root);
    assert!(inner.get_build_in("f").is_some());
    inner.set_build_in("g", NoNative {});
    assert!(inner.get_build_in("g").is_none());
    assert!(inner.get("g").is_none());
}

#[test]
fn trace_keeps_its_records_in_order() {
    let mut stack = CallStack::new();
    assert!(stack.call_stack().is_empty());
    stack.set_stack("FunctionCall", "f", vec![constant(1.0)]);
    stack.set_stack("BuildInFunction", "g", vec![]);
    let mut other = CallStack::new();
    other.set_stack("FunctionCall", "h", vec![constant(2.0), constant(3.0)]);
    stack.append(other);
    let records = stack.call_stack();
    let seen: Vec<(&str, &str, usize)> =
        records.iter().map(|r| (r.op.as_str(), r.func.as_str(), r.args.len())).collect();
    assert_eq!(
        seen,
        vec![("FunctionCall", "f", 1), ("BuildInFunction", "g", 0), ("FunctionCall", "h", 2)]
    );
    assert_eq!(stack.call_stack().len(), 3);
}

#[test]
fn a_delay_that_is_over_stays_over() {
    let mut delay = DelayInfo::new(Duration::from_secs(3600));
    assert!(!delay.check_delay());
    assert!(!delay.latch(false));
    assert!(delay.latch(true));
    assert!(delay.latch(false));
    assert!(delay.check_delay());
    let mut short = DelayInfo::new(Duration::from_nanos(0));
    let mut tries = 0;
    while !short.check_delay() {
        tries += 1;
        assert!(tries < 100_000_000);
    }
    assert!(short.check_delay());
}

#[test]
fn values_found_for_a_name_are_kept() {
    let root: Env<NoNative> = Env::new();
    let mut value = EnvValue {
        node: constant(2.5),
        value: CalculateOption::NoValue,
        hist_value: Vec::new(),
    };
    let mut stack = CallStack::new();
    let first = value.calc(&root, &mut stack, 5);
    let second = value.calc(&root, &mut stack, 5);
    assert!(matches!(first, CalculateOption::Num(bits) if f64::from_bits(bits) == 2.5));
    assert!(matches!(second, CalculateOption::Num(bits) if f64::from_bits(bits) == 2.5));
    assert_eq!(value.hist_value.len(), 2);
    assert!(stack.call_stack().is_empty());
}
