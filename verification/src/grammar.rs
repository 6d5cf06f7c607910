//! What a text scans to: the grammar of formulas, as functions on sequences
//! of characters.
//!
//! A formula is read from left to right. An operator takes the node read so
//! far as its left operand and all that follows as its right operand, so
//! there is no precedence: `1 + 2 * 3` is `1 + (2 * 3)` and `2 * 3 + 1` is
//! `2 * (3 + 1)`.
//!
//! The functions are total. Where one of them asks whether a position lies
//! inside the text or behind the position before, it does so to be defined
//! everywhere; `scan_stays_in_text` shows that every scan of a text stays
//! inside it and moves on.

use vstd::prelude::*;
use crate::formula::{Node, OpNode};
use crate::message;
use crate::number::decimal_bits;

verus! {

pub open spec fn is_space(c: char) -> bool {
    c == ' ' || c == '\r' || c == '\n'
}

pub open spec fn is_letter(c: char) -> bool {
    ('A' <= c && c <= 'Z') || ('a' <= c && c <= 'z')
}

pub open spec fn is_digit(c: char) -> bool {
    '0' <= c && c <= '9'
}

/// The characters that a name begins with.
pub open spec fn is_name_start(c: char) -> bool {
    is_letter(c) || c == '_'
}

/// The characters that a name goes on with; a space inside a name belongs to
/// it.
pub open spec fn is_name_char(c: char) -> bool {
    is_letter(c) || is_digit(c) || c == '_' || c == ' '
}

/// The characters of a number.
pub open spec fn is_number_char(c: char) -> bool {
    is_digit(c) || c == '.'
}

pub open spec fn is_open(c: char) -> bool {
    c == '(' || c == '[' || c == '{'
}

pub open spec fn is_close(c: char) -> bool {
    c == ')' || c == ']' || c == '}'
}

/// The classes of characters that are read as a run.
pub enum Class {
    Space,
    Name,
    Number,
}

pub open spec fn in_class(class: Class, c: char) -> bool {
    match class {
        Class::Space => is_space(c),
        Class::Name => is_name_char(c),
        Class::Number => is_number_char(c),
    }
}

/// Where the run of characters of `class` that begins at `pos` ends.
pub open spec fn run_end(s: Seq<char>, pos: int, class: Class) -> int
    decreases s.len() - pos,
{
    if 0 <= pos < s.len() && in_class(class, s[pos]) {
        run_end(s, pos + 1, class)
    } else {
        pos
    }
}

/// The first position from `pos` on that holds no space.
pub open spec fn after_space(s: Seq<char>, pos: int) -> int {
    run_end(s, pos, Class::Space)
}

/// `run_end` stays inside the text, passes only characters of the class and
/// stops at the first that is none.
pub proof fn lemma_run_end(s: Seq<char>, pos: int, class: Class)
    requires
        0 <= pos <= s.len(),
    ensures
        pos <= run_end(s, pos, class) <= s.len(),
        forall|i: int| pos <= i < run_end(s, pos, class) ==> in_class(class, #[trigger] s[i]),
        run_end(s, pos, class) < s.len() ==> !in_class(class, s[run_end(s, pos, class)]),
    decreases s.len() - pos,
{
    if pos < s.len() && in_class(class, s[pos]) {
        lemma_run_end(s, pos + 1, class);
    }
}

/// `t` without the spaces at its end.
pub open spec fn trim_end(t: Seq<char>) -> Seq<char>
    decreases t.len(),
{
    if t.len() > 0 && t.last() == ' ' {
        trim_end(t.drop_last())
    } else {
        t
    }
}

/// How many characters of `t` are left when the spaces at its end are taken
/// away.
pub open spec fn trimmed_len(t: Seq<char>) -> int
    decreases t.len(),
{
    if t.len() > 0 && t.last() == ' ' {
        trimmed_len(t.drop_last())
    } else {
        t.len() as int
    }
}

pub proof fn lemma_trim_end(t: Seq<char>)
    ensures
        0 <= trimmed_len(t) <= t.len(),
        trim_end(t) == t.take(trimmed_len(t)),
        trimmed_len(t) > 0 ==> t[trimmed_len(t) - 1] != ' ',
        forall|i: int| trimmed_len(t) <= i < t.len() ==> #[trigger] t[i] == ' ',
    decreases t.len(),
{
    if t.len() > 0 && t.last() == ' ' {
        lemma_trim_end(t.drop_last());
        assert(t.drop_last().take(trimmed_len(t)) == t.take(trimmed_len(t)));
        assert forall|i: int| trimmed_len(t) <= i < t.len() implies #[trigger] t[i] == ' ' by {
            if i < t.len() - 1 {
                assert(t.drop_last()[i] == ' ');
            }
        }
    } else {
        assert(t.take(t.len() as int) == t);
    }
}

/// Where the bracket that was opened before `pos` is closed, `depth`
/// brackets being open at `pos`; the end of the text where it never is.
/// Round, square and curly brackets count alike.
pub open spec fn brace_end(s: Seq<char>, pos: int, depth: int) -> int
    decreases s.len() - pos,
{
    if !(0 <= pos < s.len()) {
        s.len() as int
    } else if is_close(s[pos]) {
        if depth <= 1 {
            pos
        } else {
            brace_end(s, pos + 1, depth - 1)
        }
    } else if is_open(s[pos]) {
        brace_end(s, pos + 1, depth + 1)
    } else {
        brace_end(s, pos + 1, depth)
    }
}

pub proof fn lemma_brace_end(s: Seq<char>, pos: int, depth: int)
    requires
        0 <= pos <= s.len(),
    ensures
        pos <= brace_end(s, pos, depth) <= s.len(),
        brace_end(s, pos, depth) < s.len() ==> is_close(s[brace_end(s, pos, depth)]),
    decreases s.len() - pos,
{
    if pos < s.len() {
        if is_close(s[pos]) {
            if depth > 1 {
                lemma_brace_end(s, pos + 1, depth - 1);
            }
        } else if is_open(s[pos]) {
            lemma_brace_end(s, pos + 1, depth + 1);
        } else {
            lemma_brace_end(s, pos + 1, depth);
        }
    }
}

/// What stands between the bracket at `pos` and the bracket that closes it.
pub open spec fn braced(s: Seq<char>, pos: int) -> Seq<char> {
    s.subrange(pos + 1, brace_end(s, pos + 1, 1))
}

/// The position behind the bracket that closes the one at `pos`; the end of
/// the text where none does.
pub open spec fn after_braced(s: Seq<char>, pos: int) -> int {
    let end = brace_end(s, pos + 1, 1);
    if end < s.len() {
        end + 1
    } else {
        s.len() as int
    }
}

/// The node of a name: `true` and `false` are the truth values, any other
/// name is a variant.
pub open spec fn name_node(name: Seq<char>) -> Node {
    if name == seq!['t', 'r', 'u', 'e'] {
        Node::Bool(true)
    } else if name == seq!['f', 'a', 'l', 's', 'e'] {
        Node::Bool(false)
    } else {
        Node::Variant(name)
    }
}

/// The text of the number that begins at `pos`: its digits and points,
/// without one point at the end.
pub open spec fn number_text(s: Seq<char>, pos: int) -> Seq<char> {
    let t = s.subrange(pos, run_end(s, pos, Class::Number));
    if t.len() > 0 && t.last() == '.' {
        t.drop_last()
    } else {
        t
    }
}

/// The number that begins at `pos`, and where it ends.
pub open spec fn scan_const(s: Seq<char>, pos: int) -> (Node, int) {
    let t = number_text(s, pos);
    let end = run_end(s, pos, Class::Number);
    if !(0 <= pos <= s.len()) {
        (Node::Empty, pos)
    } else if t.len() == 0 {
        (Node::Empty, end)
    } else {
        match decimal_bits(t) {
            Some(bits) => (Node::Constant(bits), end),
            None => (Node::UnKnow(message::not_a_number(t)), end),
        }
    }
}

/// The node that an operator of arithmetic makes of its operands.
pub open spec fn math_node(op: char, left: Node, right: Node) -> Node {
    let l = Box::new(left);
    let r = Box::new(right);
    if op == '+' {
        Node::Operator(Box::new(OpNode::Plus { left: l, right: r }))
    } else if op == '-' {
        Node::Operator(Box::new(OpNode::Minus { left: l, right: r }))
    } else if op == '*' {
        Node::Operator(Box::new(OpNode::Multiply { left: l, right: r }))
    } else {
        Node::Operator(Box::new(OpNode::Divide { left: l, right: r }))
    }
}

/// The node that a comparison makes of its operands; `with_equal` says that
/// `=` follows the operator. `=` alone and `==` both test for equality.
pub open spec fn compare_node(op: char, with_equal: bool, left: Node, right: Node) -> Node {
    let l = Box::new(left);
    let r = Box::new(right);
    if op == '>' {
        if with_equal {
            Node::Operator(Box::new(OpNode::GreatEqual { left: l, right: r }))
        } else {
            Node::Operator(Box::new(OpNode::Great { left: l, right: r }))
        }
    } else if op == '<' {
        if with_equal {
            Node::Operator(Box::new(OpNode::LessEqual { left: l, right: r }))
        } else {
            Node::Operator(Box::new(OpNode::Less { left: l, right: r }))
        }
    } else {
        Node::Operator(Box::new(OpNode::Equal { left: l, right: r }))
    }
}

pub open spec fn not_node(inner: Node) -> Node {
    Node::Operator(Box::new(OpNode::Not(Box::new(inner))))
}

pub open spec fn and_node(left: Node, right: Node) -> Node {
    Node::Operator(Box::new(OpNode::And { left: Box::new(left), right: Box::new(right) }))
}

pub open spec fn or_node(left: Node, right: Node) -> Node {
    Node::Operator(Box::new(OpNode::Or { left: Box::new(left), right: Box::new(right) }))
}

/// The node read so far, or the empty node where none was.
pub open spec fn finish(acc: Option<Node>) -> Node {
    match acc {
        Some(node) => node,
        None => Node::Empty,
    }
}

/// What a whole text scans to: the node of its last statement, or the first
/// fault.
pub open spec fn parse_formula(s: Seq<char>) -> Node
    decreases s.len(), 9int, 0int,
{
    let start = after_space(s, 0);
    if 0 <= start <= s.len() {
        parse_from(s, start, Node::Empty)
    } else {
        Node::Empty
    }
}

/// The statements from `pos` on, `last` being the node of the statement
/// before.
pub open spec fn parse_from(s: Seq<char>, pos: int, last: Node) -> Node
    decreases s.len() - pos, 8int, 0int,
{
    if !(0 <= pos < s.len()) {
        last
    } else {
        let (node, next) = scan_node(s, pos, false);
        if node is UnKnow || next <= pos || next > s.len() {
            node
        } else {
            parse_from(s, next, node)
        }
    }
}

/// One node from `pos` on, and where the scan stopped. With `limit` the scan
/// stops behind the first node; without, it goes on to the end of the
/// statement.
pub open spec fn scan_node(s: Seq<char>, pos: int, limit: bool) -> (Node, int)
    decreases s.len() - pos, 7int, 0int,
{
    if !(0 <= pos < s.len()) {
        (Node::Empty, pos)
    } else {
        scan_loop(s, pos, limit, None)
    }
}

/// Goes on from the node `node` that ended at `next`, the step having begun
/// at `from`.
pub open spec fn advance(s: Seq<char>, from: int, limit: bool, node: Node, next: int) -> (
    Node,
    int,
)
    decreases s.len() - from, 5int, 0int,
{
    if limit || node is UnKnow || next <= from || next > s.len() {
        (node, next)
    } else {
        scan_loop(s, next, limit, Some(node))
    }
}

/// The steps of a scan from `pos` on, `acc` being the node read so far.
pub open spec fn scan_loop(s: Seq<char>, pos: int, limit: bool, acc: Option<Node>) -> (Node, int)
    decreases s.len() - pos, 6int, 0int,
{
    let p = after_space(s, pos);
    if !(0 <= pos <= p < s.len()) {
        (finish(acc), p)
    } else {
        let c = s[p];
        if c == ':' {
            scan_naming_node(s, p, acc)
        } else if c == '^' || c == '!' {
            let (inner, next) = scan_node(s, p + 1, true);
            advance(s, p, limit, not_node(inner), next)
        } else if c == '(' || c == '[' {
            let (node, next) = find_end_brace(s, p);
            advance(s, p, limit, node, next)
        } else if is_name_start(c) {
            let (node, next) = scan_name(s, p);
            advance(s, p, limit, node, next)
        } else if is_number_char(c) {
            let (node, next) = scan_const(s, p);
            advance(s, p, limit, node, next)
        } else if c == '+' || c == '-' || c == '*' || c == '/' {
            let (node, next) = scan_math(s, p, acc);
            advance(s, p, limit, node, next)
        } else if c == '>' || c == '<' || c == '=' {
            let (node, next) = scan_compare(s, p, acc);
            advance(s, p, limit, node, next)
        } else if c == ';' {
            (finish(acc), p + 1)
        } else if c == '&' {
            if p + 1 < s.len() && s[p + 1] == '&' {
                let (node, next) = scan_logic_and(s, p + 2, acc);
                advance(s, p, limit, node, next)
            } else {
                (Node::UnKnow(message::and_incomplete()), p + 1)
            }
        } else if c == '|' {
            if p + 1 < s.len() && s[p + 1] == '|' {
                let (node, next) = scan_logic_or(s, p + 2, acc);
                advance(s, p, limit, node, next)
            } else {
                (Node::UnKnow(message::or_incomplete()), p + 1)
            }
        } else {
            (Node::UnKnow(message::illegal_symbol(c)), p)
        }
    }
}

/// `name := formula`, the `:` standing at `pos` and `acc` being the node
/// before it.
pub open spec fn scan_naming_node(s: Seq<char>, pos: int, acc: Option<Node>) -> (Node, int)
    decreases s.len() - pos, 4int, 0int,
{
    if !(0 <= pos < s.len()) {
        (Node::Empty, pos)
    } else if acc is None {
        (Node::UnKnow(message::name_missing()), pos + 1)
    } else if !(pos + 1 < s.len() && s[pos + 1] == '=') {
        (Node::UnKnow(message::naming_incomplete()), pos + 1)
    } else {
        match acc {
            Some(Node::Variant(name)) => {
                if pos + 2 >= s.len() {
                    (Node::UnKnow(message::naming_empty()), pos + 2)
                } else {
                    let (formula, next) = scan_node(s, pos + 2, false);
                    (Node::Formula { name, formula: Box::new(formula) }, next)
                }
            },
            _ => (Node::UnKnow(message::naming_target()), pos + 2),
        }
    }
}

/// An operator of arithmetic at `pos`: the node before it is its left
/// operand, all that follows its right operand.
pub open spec fn scan_math(s: Seq<char>, pos: int, acc: Option<Node>) -> (Node, int)
    decreases s.len() - pos, 4int, 0int,
{
    if !(0 <= pos < s.len()) {
        (Node::Empty, pos)
    } else {
        match acc {
            Some(left) => {
                let (right, next) = scan_node(s, pos + 1, false);
                (math_node(s[pos], left, right), next)
            },
            None => (Node::UnKnow(message::operand_missing()), pos + 1),
        }
    }
}

/// A comparison at `pos`: `>`, `>=`, `<`, `<=`, `=` or `==`.
pub open spec fn scan_compare(s: Seq<char>, pos: int, acc: Option<Node>) -> (Node, int)
    decreases s.len() - pos, 4int, 0int,
{
    if !(0 <= pos < s.len()) {
        (Node::Empty, pos)
    } else if pos + 1 >= s.len() {
        (Node::UnKnow(message::comparison_incomplete()), pos + 1)
    } else {
        let with_equal = s[pos + 1] == '=';
        let start = if with_equal {
            pos + 2
        } else {
            pos + 1
        };
        let from = after_space(s, start);
        match acc {
            Some(left) => {
                if start <= from <= s.len() {
                    let (right, next) = scan_node(s, from, false);
                    (compare_node(s[pos], with_equal, left, right), next)
                } else {
                    (Node::Empty, pos)
                }
            },
            None => (Node::UnKnow(message::operand_missing()), start),
        }
    }
}

/// What follows `&&` from `pos` on: one node, the right operand.
pub open spec fn scan_logic_and(s: Seq<char>, pos: int, acc: Option<Node>) -> (Node, int)
    decreases s.len() - pos, 8int, 0int,
{
    let (right, next) = scan_node(s, pos, true);
    match acc {
        Some(left) => (and_node(left, right), next),
        None => (Node::UnKnow(message::operand_missing()), next),
    }
}

/// What follows `||` from `pos` on: one node, the right operand.
pub open spec fn scan_logic_or(s: Seq<char>, pos: int, acc: Option<Node>) -> (Node, int)
    decreases s.len() - pos, 8int, 0int,
{
    let (right, next) = scan_node(s, pos, true);
    match acc {
        Some(left) => (or_node(left, right), next),
        None => (Node::UnKnow(message::operand_missing()), next),
    }
}

/// The group whose bracket stands at `pos`: what its content scans to.
pub open spec fn find_end_brace(s: Seq<char>, pos: int) -> (Node, int)
    decreases s.len() - pos, 4int, 0int,
{
    if !(0 <= pos < s.len()) {
        (Node::Empty, pos)
    } else {
        let sub = braced(s, pos);
        if sub.len() != 0 && sub.len() < s.len() - pos {
            (parse_formula(sub), after_braced(s, pos))
        } else {
            (Node::Empty, after_braced(s, pos))
        }
    }
}

/// The name that begins at `pos`, with brackets behind it a call, and the
/// first position behind that holds no space.
pub open spec fn scan_name_head(s: Seq<char>, pos: int) -> (Node, int)
    decreases s.len() - pos, 4int, 0int,
{
    let (var, after_name) = scan_variant(s, pos);
    if 0 <= pos < after_name < s.len() && s[after_name] == '(' {
        let args = scan_split_node(braced(s, after_name), ',', s.len() - pos);
        let node = match var {
            Node::Variant(name) => Node::FunctionCall { name, args },
            _ => Node::UnKnow(message::call_target()),
        };
        (node, after_space(s, after_braced(s, after_name)))
    } else {
        (var, after_name)
    }
}

/// The name that begins at `pos`; with brackets behind it a call, and with a
/// block behind the call the definition of a function.
pub open spec fn scan_name(s: Seq<char>, pos: int) -> (Node, int)
    decreases s.len() - pos, 5int, 0int,
{
    if !(0 <= pos < s.len()) {
        (Node::Empty, pos)
    } else {
        let (head, after_head) = scan_name_head(s, pos);
        if pos < after_head < s.len() && s[after_head] == '{' {
            let expressions = scan_split_node(braced(s, after_head), ';', s.len() - pos);
            let node = match head {
                Node::FunctionCall { name, args } => Node::Function { name, args, expressions },
                _ => Node::UnKnow(message::definition_head()),
            };
            (node, after_space(s, after_braced(s, after_head)))
        } else {
            (head, after_head)
        }
    }
}

/// The name that begins at `pos`, without the spaces at its end, and the
/// first position behind it that holds no space.
pub open spec fn scan_variant(s: Seq<char>, pos: int) -> (Node, int) {
    let end = run_end(s, pos, Class::Name);
    let name = trim_end(s.subrange(pos, end));
    if !(0 <= pos <= s.len()) {
        (Node::Empty, pos)
    } else if name.len() == 0 {
        (Node::Empty, end)
    } else {
        (name_node(name), after_space(s, end))
    }
}

/// The parts of `sub` between the separators that stand inside no bracket,
/// each scanned as a text of its own. The part behind the last separator
/// counts only where it is not empty. `bound` is above the length of `sub`.
pub open spec fn scan_split_node(sub: Seq<char>, splitter: char, bound: int) -> Seq<Node>
    decreases bound, 3int, 0int,
{
    if sub.len() < bound {
        split_from(sub, splitter, 0, 0, 0)
    } else {
        Seq::empty()
    }
}

/// The parts of `sub` from `start` on, the scan standing at `pos` with
/// `depth` brackets open.
pub open spec fn split_from(sub: Seq<char>, splitter: char, pos: int, start: int, depth: int) -> Seq<
    Node,
>
    decreases sub.len() + 1, 2int, sub.len() - pos,
{
    if !(0 <= start <= pos <= sub.len()) {
        Seq::empty()
    } else if pos == sub.len() {
        if start < pos {
            seq![parse_formula(sub.subrange(start, pos))]
        } else {
            Seq::empty()
        }
    } else if sub[pos] == splitter && depth == 0 {
        seq![parse_formula(sub.subrange(start, pos))] + split_from(
            sub,
            splitter,
            pos + 1,
            pos + 1,
            0,
        )
    } else if is_open(sub[pos]) {
        split_from(sub, splitter, pos + 1, start, depth + 1)
    } else if is_close(sub[pos]) {
        split_from(sub, splitter, pos + 1, start, depth - 1)
    } else {
        split_from(sub, splitter, pos + 1, start, depth)
    }
}

/// The position behind a bracketed part lies behind its bracket and inside
/// the text.
pub proof fn lemma_after_braced(s: Seq<char>, pos: int)
    requires
        0 <= pos < s.len(),
    ensures
        pos < after_braced(s, pos) <= s.len(),
        braced(s, pos).len() < s.len() - pos,
{
    lemma_brace_end(s, pos + 1, 1);
}

/// A scan never goes back and never leaves the text: it stops at or behind
/// the position where it began, and not behind the end. Inside the text it
/// moves on, unless it meets what is no formula.
pub proof fn scan_stays_in_text(s: Seq<char>, pos: int, limit: bool)
    requires
        0 <= pos <= s.len(),
    ensures
        pos <= scan_node(s, pos, limit).1 <= s.len(),
        pos < s.len() ==> scan_node(s, pos, limit).0 is UnKnow || pos < scan_node(s, pos, limit).1,
    decreases s.len() - pos, 7int, 0int,
{
    if pos < s.len() {
        steps_stay_in_text(s, pos, limit, None);
    }
}

/// The same of a scan that goes on from a node.
pub proof fn advance_stays_in_text(s: Seq<char>, from: int, limit: bool, node: Node, next: int)
    requires
        0 <= from < s.len(),
        from < next <= s.len(),
    ensures
        from < advance(s, from, limit, node, next).1 <= s.len(),
        !limit && !(node is UnKnow) ==> advance(s, from, limit, node, next) == scan_loop(
            s,
            next,
            limit,
            Some(node),
        ),
    decreases s.len() - from, 5int, 0int,
{
    if !(limit || node is UnKnow) {
        steps_stay_in_text(s, next, limit, Some(node));
    }
}

/// The same of the steps of a scan.
pub proof fn steps_stay_in_text(s: Seq<char>, pos: int, limit: bool, acc: Option<Node>)
    requires
        0 <= pos <= s.len(),
    ensures
        pos <= scan_loop(s, pos, limit, acc).1 <= s.len(),
        pos < s.len() ==> scan_loop(s, pos, limit, acc).0 is UnKnow || pos < scan_loop(
            s,
            pos,
            limit,
            acc,
        ).1,
    decreases s.len() - pos, 6int, 0int,
{
    lemma_run_end(s, pos, Class::Space);
    let p = after_space(s, pos);
    if p < s.len() {
        step_moves_on(s, p, acc);
        let c = s[p];
        if c == ':' {
        } else if c == '^' || c == '!' {
            let (inner, next) = scan_node(s, p + 1, true);
            advance_stays_in_text(s, p, limit, not_node(inner), next);
        } else if c == '(' || c == '[' {
            let (node, next) = find_end_brace(s, p);
            advance_stays_in_text(s, p, limit, node, next);
        } else if is_name_start(c) {
            let (node, next) = scan_name(s, p);
            advance_stays_in_text(s, p, limit, node, next);
        } else if is_number_char(c) {
            let (node, next) = scan_const(s, p);
            advance_stays_in_text(s, p, limit, node, next);
        } else if c == '+' || c == '-' || c == '*' || c == '/' {
            let (node, next) = scan_math(s, p, acc);
            advance_stays_in_text(s, p, limit, node, next);
        } else if c == '>' || c == '<' || c == '=' {
            let (node, next) = scan_compare(s, p, acc);
            advance_stays_in_text(s, p, limit, node, next);
        } else if c == ';' {
        } else if c == '&' {
            if p + 1 < s.len() && s[p + 1] == '&' {
                let (node, next) = scan_logic_and(s, p + 2, acc);
                advance_stays_in_text(s, p, limit, node, next);
            }
        } else if c == '|' {
            if p + 1 < s.len() && s[p + 1] == '|' {
                let (node, next) = scan_logic_or(s, p + 2, acc);
                advance_stays_in_text(s, p, limit, node, next);
            }
        }
    }
}

/// Each part of a formula that begins at `pos` ends behind `pos` and inside
/// the text.
pub proof fn step_moves_on(s: Seq<char>, pos: int, acc: Option<Node>)
    requires
        0 <= pos < s.len(),
    ensures
        pos < scan_naming_node(s, pos, acc).1 <= s.len(),
        pos < scan_node(s, pos + 1, true).1 <= s.len(),
        pos < find_end_brace(s, pos).1 <= s.len(),
        is_name_start(s[pos]) ==> pos < scan_name(s, pos).1 <= s.len(),
        is_number_char(s[pos]) ==> pos < scan_const(s, pos).1 <= s.len(),
        pos < scan_math(s, pos, acc).1 <= s.len(),
        pos < scan_compare(s, pos, acc).1 <= s.len(),
        pos + 1 < s.len() ==> pos < scan_logic_and(s, pos + 2, acc).1 <= s.len(),
        pos + 1 < s.len() ==> pos < scan_logic_or(s, pos + 2, acc).1 <= s.len(),
    decreases s.len() - pos, 5int, 1int,
{
    scan_stays_in_text(s, pos + 1, true);
    scan_stays_in_text(s, pos + 1, false);
    lemma_after_braced(s, pos);
    lemma_run_end(s, pos, Class::Number);
    if is_name_start(s[pos]) {
        name_stays_in_text(s, pos);
    }
    if pos + 1 < s.len() {
        scan_stays_in_text(s, pos + 2, true);
        scan_stays_in_text(s, pos + 2, false);
        let start = if s[pos + 1] == '=' {
            pos + 2
        } else {
            pos + 1
        };
        lemma_run_end(s, start, Class::Space);
        scan_stays_in_text(s, after_space(s, start), false);
    }
}

proof fn name_stays_in_text(s: Seq<char>, pos: int)
    requires
        0 <= pos < s.len(),
        is_name_start(s[pos]),
    ensures
        pos < scan_name(s, pos).1 <= s.len(),
{
    lemma_run_end(s, pos, Class::Name);
    let end = run_end(s, pos, Class::Name);
    lemma_run_end(s, end, Class::Space);
    let text = s.subrange(pos, end);
    lemma_trim_end(text);
    assert(text[0] == s[pos]);
    assert(trimmed_len(text) > 0);
    let (var, after_name) = scan_variant(s, pos);
    if 0 <= after_name < s.len() && s[after_name] == '(' {
        lemma_after_braced(s, after_name);
        lemma_run_end(s, after_braced(s, after_name), Class::Space);
    }
    let after_head = scan_name_head(s, pos).1;
    if 0 <= after_head < s.len() && s[after_head] == '{' {
        lemma_after_braced(s, after_head);
        lemma_run_end(s, after_braced(s, after_head), Class::Space);
    }
}

} // verus!
