//! The scanner: reads a text, character by character, into a tree.

use vstd::prelude::*;
use std::rc::Rc;
use crate::formula::{view_all, FormulaNode, Node, OperatorNode};
use crate::grammar;
use crate::grammar::Class;
use crate::message;
use crate::number;

verus! {

/// The model of a node that may be missing.
pub open spec fn view_opt(acc: Option<FormulaNode>) -> Option<Node> {
    match acc {
        Some(node) => Some(node@),
        None => None,
    }
}

fn in_class(class: &Class, c: char) -> (r: bool)
    ensures
        r == grammar::in_class(*class, c),
{
    match class {
        Class::Space => c == ' ' || c == '\r' || c == '\n',
        Class::Name => ('A' <= c && c <= 'Z') || ('a' <= c && c <= 'z') || ('0' <= c && c <= '9')
            || c == '_' || c == ' ',
        Class::Number => ('0' <= c && c <= '9') || c == '.',
    }
}

/// Passes the run of characters of `class` that begins at `pos`.
pub fn scan_run(chars: &Vec<char>, pos: usize, class: Class) -> (r: usize)
    ensures
        r == grammar::run_end(chars@, pos as int, class),
        pos <= r,
        r <= chars.len() || r == pos,
{
    let mut i: usize = pos;
    while i < chars.len() && in_class(&class, chars[i])
        invariant
            pos <= i,
            i <= chars.len() || i == pos,
            grammar::run_end(chars@, i as int, class) == grammar::run_end(
                chars@,
                pos as int,
                class,
            ),
        decreases chars.len() - i,
    {
        i += 1;
    }
    i
}

/// Passes the spaces and line ends from `pos` on.
pub fn skip_space(chars: &Vec<char>, pos: usize) -> (r: usize)
    ensures
        r == grammar::after_space(chars@, pos as int),
        pos <= r,
        r <= chars.len() || r == pos,
{
    scan_run(chars, pos, Class::Space)
}

/// A copy of `chars[from..to]`.
pub fn slice_of(chars: &Vec<char>, from: usize, to: usize) -> (r: Vec<char>)
    requires
        from <= to <= chars.len(),
    ensures
        r@ == chars@.subrange(from as int, to as int),
{
    let mut r: Vec<char> = Vec::new();
    let mut i: usize = from;
    while i < to
        invariant
            from <= i <= to <= chars.len(),
            r@ == chars@.subrange(from as int, i as int),
        decreases to - i,
    {
        r.push(chars[i]);
        assert(chars@.subrange(from as int, i as int).push(chars@[i as int]) == chars@.subrange(
            from as int,
            i + 1,
        ));
        i += 1;
    }
    r
}

fn is_open(c: char) -> (r: bool)
    ensures
        r == grammar::is_open(c),
{
    c == '(' || c == '[' || c == '{'
}

fn is_close(c: char) -> (r: bool)
    ensures
        r == grammar::is_close(c),
{
    c == ')' || c == ']' || c == '}'
}

/// What stands between the bracket at `pos` and the bracket that closes it,
/// and the position behind that bracket. Brackets inside are passed over
/// with their content; a bracket that is never closed reaches to the end.
pub fn find_end_brace_without_parse(chars: &Vec<char>, pos: usize) -> (r: (Vec<char>, usize))
    ensures
        pos < chars.len() ==> r.0@ == grammar::braced(chars@, pos as int) && r.1
            == grammar::after_braced(chars@, pos as int),
        pos < chars.len() ==> pos < r.1 <= chars.len() && r.0@.len() < chars.len() - pos,
        pos >= chars.len() ==> r.0@.len() == 0 && r.1 == pos,
{
    if pos >= chars.len() {
        return (Vec::new(), pos);
    }
    let mut i: usize = pos + 1;
    let mut depth: usize = 1;
    let mut found = false;
    while i < chars.len() && !found
        invariant
            pos < i <= chars.len(),
            1 <= depth <= i - pos,
            !found ==> grammar::brace_end(chars@, i as int, depth as int) == grammar::brace_end(
                chars@,
                pos + 1,
                1,
            ),
            found ==> i < chars.len() && i == grammar::brace_end(chars@, pos + 1, 1),
        decreases chars.len() - i + (if found { 0int } else { 1int }),
    {
        let c = chars[i];
        if is_close(c) {
            if depth <= 1 {
                found = true;
            } else {
                depth -= 1;
                i += 1;
            }
        } else if is_open(c) {
            depth += 1;
            i += 1;
        } else {
            i += 1;
        }
    }
    let sub = slice_of(chars, pos + 1, i);
    let next = if i < chars.len() {
        i + 1
    } else {
        i
    };
    (sub, next)
}

proof fn lemma_view_all_push(nodes: Seq<Rc<FormulaNode>>, node: Rc<FormulaNode>)
    ensures
        view_all(nodes.push(node)) == view_all(nodes).push(node@),
{
    assert(view_all(nodes.push(node)) =~= view_all(nodes).push(node@));
}

/// The parts of `sub` between the separators that stand inside no bracket,
/// each scanned as a text of its own.
pub fn scan_split_node(sub: &Vec<char>, splitter: char) -> (r: Vec<Rc<FormulaNode>>)
    ensures
        view_all(r@) == grammar::split_from(sub@, splitter, 0, 0, 0),
    decreases sub.len() + 1, 3int, 0int,
{
    let mut out: Vec<Rc<FormulaNode>> = Vec::new();
    let mut i: usize = 0;
    let mut start: usize = 0;
    let mut depth: i128 = 0;
    assert(view_all(out@) =~= Seq::<Node>::empty());
    while i < sub.len()
        invariant
            start <= i <= sub.len(),
            -(i as int) <= depth <= i,
            view_all(out@) + grammar::split_from(sub@, splitter, i as int, start as int, depth as int)
                == grammar::split_from(sub@, splitter, 0, 0, 0),
        decreases sub.len() - i,
    {
        let c = sub[i];
        if c == splitter && depth == 0 {
            let piece = slice_of(sub, start, i);
            let node = parse_formula(&piece);
            let ghost before = out@;
            out.push(Rc::new(node));
            proof {
                lemma_view_all_push(before, out@.last());
                assert(view_all(out@) + grammar::split_from(sub@, splitter, i + 1, i + 1, 0)
                    =~= view_all(before) + grammar::split_from(
                    sub@,
                    splitter,
                    i as int,
                    start as int,
                    depth as int,
                ));
            }
            start = i + 1;
            depth = 0;
        } else if is_open(c) {
            depth += 1;
        } else if is_close(c) {
            depth -= 1;
        }
        i += 1;
    }
    if start < i {
        let piece = slice_of(sub, start, i);
        let node = parse_formula(&piece);
        let ghost before = out@;
        out.push(Rc::new(node));
        proof {
            lemma_view_all_push(before, out@.last());
            assert(view_all(out@) =~= view_all(before) + grammar::split_from(
                sub@,
                splitter,
                i as int,
                start as int,
                depth as int,
            ));
        }
    } else {
        assert(view_all(out@) =~= view_all(out@) + Seq::<Node>::empty());
    }
    out
}

/// Scans a whole text: the node of its last statement, or the first fault.
pub fn parse_formula(chars: &Vec<char>) -> (r: FormulaNode)
    ensures
        r@ == grammar::parse_formula(chars@),
    decreases chars.len(), 9int, 0int,
{
    let mut pos = skip_space(chars, 0);
    let mut last = FormulaNode::Empty;
    while pos < chars.len()
        invariant
            pos <= chars.len(),
            grammar::parse_from(chars@, pos as int, last@) == grammar::parse_formula(chars@),
        decreases chars.len() - pos,
    {
        let (node, next) = scan_node(chars, pos, false);
        if is_unknow(&node) {
            return node;
        }
        proof {
            grammar::scan_stays_in_text(chars@, pos as int, false);
        }
        last = node;
        pos = next;
    }
    last
}

fn is_unknow(node: &FormulaNode) -> (r: bool)
    ensures
        r == (node@ is UnKnow),
{
    match node {
        FormulaNode::UnKnow(_) => true,
        _ => false,
    }
}

/// Scans one node from `pos` on and says where the scan stopped. With
/// `limit` the scan stops behind the first node; without, it goes on to the
/// end of the statement.
pub fn scan_node(chars: &Vec<char>, pos: usize, limit: bool) -> (r: (FormulaNode, usize))
    ensures
        (r.0@, r.1 as int) == grammar::scan_node(chars@, pos as int, limit),
    decreases chars.len() - pos, 7int, 0int,
{
    if pos >= chars.len() {
        return (FormulaNode::Empty, pos);
    }
    scan_loop(chars, pos, limit, None)
}

fn advance(chars: &Vec<char>, from: usize, limit: bool, node: FormulaNode, next: usize) -> (r: (
    FormulaNode,
    usize,
))
    requires
        from < next <= chars.len(),
    ensures
        (r.0@, r.1 as int) == grammar::advance(chars@, from as int, limit, node@, next as int),
    decreases chars.len() - from, 5int, 0int,
{
    if limit || is_unknow(&node) {
        (node, next)
    } else {
        scan_loop(chars, next, limit, Some(node))
    }
}

fn finish(acc: Option<FormulaNode>) -> (r: FormulaNode)
    ensures
        r@ == grammar::finish(view_opt(acc)),
{
    match acc {
        Some(node) => node,
        None => FormulaNode::Empty,
    }
}

fn unknow(reason: String) -> (r: FormulaNode)
    ensures
        r@ == Node::UnKnow(reason@),
{
    FormulaNode::UnKnow(reason)
}

fn scan_loop(chars: &Vec<char>, pos: usize, limit: bool, acc: Option<FormulaNode>) -> (r: (
    FormulaNode,
    usize,
))
    requires
        pos <= chars.len(),
    ensures
        (r.0@, r.1 as int) == grammar::scan_loop(chars@, pos as int, limit, view_opt(acc)),
    decreases chars.len() - pos, 6int, 0int,
{
    proof {
        reveal_with_fuel(FormulaNode::view, 2);
        reveal_with_fuel(OperatorNode::view, 2);
    }
    let p = skip_space(chars, pos);
    if p >= chars.len() {
        return (finish(acc), p);
    }
    let c = chars[p];
    proof {
        grammar::step_moves_on(chars@, p as int, view_opt(acc));
    }
    if c == ':' {
        scan_naming_node(chars, p, acc)
    } else if c == '^' || c == '!' {
        let (inner, next) = scan_node(chars, p + 1, true);
        let node = FormulaNode::Operator(Box::new(OperatorNode::Not(Box::new(inner))));
        advance(chars, p, limit, node, next)
    } else if c == '(' || c == '[' {
        let (node, next) = find_end_brace(chars, p);
        advance(chars, p, limit, node, next)
    } else if ('A' <= c && c <= 'Z') || ('a' <= c && c <= 'z') || c == '_' {
        let (node, next) = scan_name(chars, p);
        advance(chars, p, limit, node, next)
    } else if ('0' <= c && c <= '9') || c == '.' {
        let (node, next) = scan_const(chars, p);
        advance(chars, p, limit, node, next)
    } else if c == '+' || c == '-' || c == '*' || c == '/' {
        let (node, next) = scan_math(chars, p, acc);
        advance(chars, p, limit, node, next)
    } else if c == '>' || c == '<' || c == '=' {
        let (node, next) = scan_compare(chars, p, acc);
        advance(chars, p, limit, node, next)
    } else if c == ';' {
        (finish(acc), p + 1)
    } else if c == '&' {
        if p + 1 < chars.len() && chars[p + 1] == '&' {
            let (node, next) = scan_logic_and(chars, p + 2, acc);
            advance(chars, p, limit, node, next)
        } else {
            (unknow(message::and_incomplete_text()), p + 1)
        }
    } else if c == '|' {
        if p + 1 < chars.len() && chars[p + 1] == '|' {
            let (node, next) = scan_logic_or(chars, p + 2, acc);
            advance(chars, p, limit, node, next)
        } else {
            (unknow(message::or_incomplete_text()), p + 1)
        }
    } else {
        (unknow(message::illegal_symbol_text(c)), p)
    }
}

/// Scans `name := formula`, the `:` standing at `pos` and `acc` being the
/// node before it.
pub fn scan_naming_node(chars: &Vec<char>, pos: usize, acc: Option<FormulaNode>) -> (r: (
    FormulaNode,
    usize,
))
    ensures
        (r.0@, r.1 as int) == grammar::scan_naming_node(chars@, pos as int, view_opt(acc)),
    decreases chars.len() - pos, 4int, 0int,
{
    if pos >= chars.len() {
        return (FormulaNode::Empty, pos);
    }
    let node = match acc {
        None => {
            return (unknow(message::name_missing_text()), pos + 1);
        },
        Some(node) => node,
    };
    if !(pos + 1 < chars.len() && chars[pos + 1] == '=') {
        return (unknow(message::naming_incomplete_text()), pos + 1);
    }
    match node {
        FormulaNode::Variant(name) => {
            if pos + 2 >= chars.len() {
                (unknow(message::naming_empty_text()), pos + 2)
            } else {
                let (formula, next) = scan_node(chars, pos + 2, false);
                (FormulaNode::Formula { name, formula: Rc::new(formula) }, next)
            }
        },
        _ => (unknow(message::naming_target_text()), pos + 2),
    }
}

/// Scans an operator of arithmetic at `pos`: the node before it is its left
/// operand, all that follows its right operand.
pub fn scan_math(chars: &Vec<char>, pos: usize, acc: Option<FormulaNode>) -> (r: (
    FormulaNode,
    usize,
))
    ensures
        (r.0@, r.1 as int) == grammar::scan_math(chars@, pos as int, view_opt(acc)),
    decreases chars.len() - pos, 4int, 0int,
{
    proof {
        reveal_with_fuel(FormulaNode::view, 2);
        reveal_with_fuel(OperatorNode::view, 2);
    }
    if pos >= chars.len() {
        return (FormulaNode::Empty, pos);
    }
    match acc {
        Some(node) => {
            let op = chars[pos];
            let left = Box::new(node);
            let (right_node, next) = scan_node(chars, pos + 1, false);
            let right = Box::new(right_node);
            let op_node = if op == '+' {
                OperatorNode::Plus { left, right }
            } else if op == '-' {
                OperatorNode::Minus { left, right }
            } else if op == '*' {
                OperatorNode::Multiply { left, right }
            } else {
                OperatorNode::Divide { left, right }
            };
            (FormulaNode::Operator(Box::new(op_node)), next)
        },
        None => (unknow(message::operand_missing_text()), pos + 1),
    }
}

/// Scans a comparison at `pos`: `>`, `>=`, `<`, `<=`, `=` or `==`.
pub fn scan_compare(chars: &Vec<char>, pos: usize, acc: Option<FormulaNode>) -> (r: (
    FormulaNode,
    usize,
))
    ensures
        (r.0@, r.1 as int) == grammar::scan_compare(chars@, pos as int, view_opt(acc)),
    decreases chars.len() - pos, 4int, 0int,
{
    proof {
        reveal_with_fuel(FormulaNode::view, 2);
        reveal_with_fuel(OperatorNode::view, 2);
    }
    if pos >= chars.len() {
        return (FormulaNode::Empty, pos);
    }
    if pos + 1 >= chars.len() {
        return (unknow(message::comparison_incomplete_text()), pos + 1);
    }
    let op = chars[pos];
    let with_equal = chars[pos + 1] == '=';
    let start = if with_equal {
        pos + 2
    } else {
        pos + 1
    };
    let from = skip_space(chars, start);
    match acc {
        Some(node) => {
            let left = Box::new(node);
            let (right_node, next) = scan_node(chars, from, false);
            let right = Box::new(right_node);
            let op_node = if op == '>' {
                if with_equal {
                    OperatorNode::GreatEqual { left, right }
                } else {
                    OperatorNode::Great { left, right }
                }
            } else if op == '<' {
                if with_equal {
                    OperatorNode::LessEqual { left, right }
                } else {
                    OperatorNode::Less { left, right }
                }
            } else {
                OperatorNode::Equal { left, right }
            };
            (FormulaNode::Operator(Box::new(op_node)), next)
        },
        None => (unknow(message::operand_missing_text()), start),
    }
}

/// Scans what follows `&&`: one node, the right operand of `acc`.
pub fn scan_logic_and(chars: &Vec<char>, pos: usize, acc: Option<FormulaNode>) -> (r: (
    FormulaNode,
    usize,
))
    ensures
        (r.0@, r.1 as int) == grammar::scan_logic_and(chars@, pos as int, view_opt(acc)),
    decreases chars.len() - pos, 8int, 0int,
{
    proof {
        reveal_with_fuel(FormulaNode::view, 2);
        reveal_with_fuel(OperatorNode::view, 2);
    }
    let (right, next) = scan_node(chars, pos, true);
    match acc {
        Some(left) => (
            FormulaNode::Operator(
                Box::new(OperatorNode::And { left: Box::new(left), right: Box::new(right) }),
            ),
            next,
        ),
        None => (unknow(message::operand_missing_text()), next),
    }
}

/// Scans what follows `||`: one node, the right operand of `acc`.
pub fn scan_logic_or(chars: &Vec<char>, pos: usize, acc: Option<FormulaNode>) -> (r: (
    FormulaNode,
    usize,
))
    ensures
        (r.0@, r.1 as int) == grammar::scan_logic_or(chars@, pos as int, view_opt(acc)),
    decreases chars.len() - pos, 8int, 0int,
{
    proof {
        reveal_with_fuel(FormulaNode::view, 2);
        reveal_with_fuel(OperatorNode::view, 2);
    }
    let (right, next) = scan_node(chars, pos, true);
    match acc {
        Some(left) => (
            FormulaNode::Operator(
                Box::new(OperatorNode::Or { left: Box::new(left), right: Box::new(right) }),
            ),
            next,
        ),
        None => (unknow(message::operand_missing_text()), next),
    }
}

/// Scans the group whose bracket stands at `pos`.
pub fn find_end_brace(chars: &Vec<char>, pos: usize) -> (r: (FormulaNode, usize))
    ensures
        (r.0@, r.1 as int) == grammar::find_end_brace(chars@, pos as int),
    decreases chars.len() - pos, 4int, 0int,
{
    if pos >= chars.len() {
        return (FormulaNode::Empty, pos);
    }
    let (sub, next) = find_end_brace_without_parse(chars, pos);
    if sub.len() != 0 {
        (parse_formula(&sub), next)
    } else {
        (FormulaNode::Empty, next)
    }
}

fn name_node(chars: &Vec<char>, from: usize, to: usize) -> (r: FormulaNode)
    requires
        from <= to <= chars.len(),
    ensures
        r@ == grammar::name_node(chars@.subrange(from as int, to as int)),
{
    let ghost name = chars@.subrange(from as int, to as int);
    if to - from == 4 && chars[from] == 't' && chars[from + 1] == 'r' && chars[from + 2] == 'u'
        && chars[from + 3] == 'e' {
        assert(name =~= seq!['t', 'r', 'u', 'e']);
        FormulaNode::Bool(true)
    } else if to - from == 5 && chars[from] == 'f' && chars[from + 1] == 'a' && chars[from + 2]
        == 'l' && chars[from + 3] == 's' && chars[from + 4] == 'e' {
        assert(name =~= seq!['f', 'a', 'l', 's', 'e']);
        FormulaNode::Bool(false)
    } else {
        proof {
            if name == seq!['t', 'r', 'u', 'e'] {
                assert(name.len() == 4);
                assert(name[0] == 't' && name[1] == 'r' && name[2] == 'u' && name[3] == 'e');
            }
            if name == seq!['f', 'a', 'l', 's', 'e'] {
                assert(name.len() == 5);
                assert(name[0] == 'f' && name[1] == 'a' && name[2] == 'l' && name[3] == 's'
                    && name[4] == 'e');
            }
        }
        FormulaNode::Variant(message::text_of(chars, from, to))
    }
}

/// Scans the name that begins at `pos`: the name without the spaces at its
/// end, and the first position behind it that holds no space.
pub fn scan_variant(chars: &Vec<char>, pos: usize) -> (r: (FormulaNode, usize))
    ensures
        (r.0@, r.1 as int) == grammar::scan_variant(chars@, pos as int),
{
    if pos > chars.len() {
        return (FormulaNode::Empty, pos);
    }
    let end = scan_run(chars, pos, Class::Name);
    let ghost t = chars@.subrange(pos as int, end as int);
    let mut e: usize = end;
    while e > pos && chars[e - 1] == ' '
        invariant
            pos <= e <= end <= chars.len(),
            forall|i: int| e <= i < end ==> chars@[i] == ' ',
        decreases e,
    {
        e -= 1;
    }
    proof {
        grammar::lemma_trim_end(t);
        let k = grammar::trimmed_len(t);
        if k < e - pos {
            assert(t[e - pos - 1] == ' ');
        }
        if k > e - pos {
            assert(t[k - 1] == chars@[pos + k - 1]);
        }
        assert(k == e - pos);
        assert(t.take(k) =~= chars@.subrange(pos as int, e as int));
    }
    if e == pos {
        (FormulaNode::Empty, end)
    } else {
        let node = name_node(chars, pos, e);
        (node, skip_space(chars, end))
    }
}

/// Scans the name that begins at `pos`; with brackets behind it a call, and
/// with a block behind the call the definition of a function.
pub fn scan_name(chars: &Vec<char>, pos: usize) -> (r: (FormulaNode, usize))
    ensures
        (r.0@, r.1 as int) == grammar::scan_name(chars@, pos as int),
    decreases chars.len() - pos, 4int, 0int,
{
    if pos >= chars.len() {
        return (FormulaNode::Empty, pos);
    }
    let (var, after_name) = scan_variant(chars, pos);
    if after_name <= pos {
        return (var, after_name);
    }
    let (head, after_head) = if after_name < chars.len() && chars[after_name] == '(' {
        let (sub, after) = find_end_brace_without_parse(chars, after_name);
        let args = scan_split_node(&sub, ',');
        let node = match var {
            FormulaNode::Variant(name) => FormulaNode::FunctionCall { name, args },
            _ => unknow(message::call_target_text()),
        };
        (node, skip_space(chars, after))
    } else {
        (var, after_name)
    };
    if after_head < chars.len() && chars[after_head] == '{' {
        let (sub, after) = find_end_brace_without_parse(chars, after_head);
        let expressions = scan_split_node(&sub, ';');
        let node = match head {
            FormulaNode::FunctionCall { name, args } => FormulaNode::Function {
                name,
                args,
                expressions,
            },
            _ => unknow(message::definition_head_text()),
        };
        (node, skip_space(chars, after))
    } else {
        (head, after_head)
    }
}

/// Scans the number that begins at `pos`.
pub fn scan_const(chars: &Vec<char>, pos: usize) -> (r: (FormulaNode, usize))
    ensures
        (r.0@, r.1 as int) == grammar::scan_const(chars@, pos as int),
{
    if pos > chars.len() {
        return (FormulaNode::Empty, pos);
    }
    let end = scan_run(chars, pos, Class::Number);
    let ghost t = chars@.subrange(pos as int, end as int);
    let e = if end > pos && chars[end - 1] == '.' {
        end - 1
    } else {
        end
    };
    assert(grammar::number_text(chars@, pos as int) =~= chars@.subrange(pos as int, e as int));
    if e == pos {
        (FormulaNode::Empty, end)
    } else {
        let text = message::text_of(chars, pos, e);
        match number::parse_decimal(text.as_str()) {
            Some(bits) => (FormulaNode::Constant(bits), end),
            None => (unknow(message::not_a_number_text(text.as_str())), end),
        }
    }
}

} // verus!
