//! What a tree evaluates to: the meaning of formulas, as functions on the
//! models of trees, scopes and values.

use vstd::prelude::*;
use crate::formula::{NativeFunction, Node, OpNode};
use crate::message;
use crate::number;

verus! {

/// The model of the result of an evaluation.
pub enum Value {
    Bool(bool),
    /// A number, as the 64 bits of an IEEE 754 binary64 value.
    Num(u64),
    /// A fault, with its text.
    Error(Seq<char>),
    /// What the definition of a function evaluates to.
    Func,
    /// No value.
    NoValue,
}

/// The model of one record of the call trace.
pub struct Invocation {
    /// `FunctionCall` or `BuildInFunction`.
    pub op: Seq<char>,
    /// The name that was called.
    pub func: Seq<char>,
    /// The arguments as they were written, not evaluated.
    pub args: Seq<Node>,
}

/// The names that a scope chain binds, each with the node that the innermost
/// scope holding it binds it to.
pub type Bindings = Map<Seq<char>, Node>;

pub open spec fn function_call_op() -> Seq<char> {
    "FunctionCall"@
}

pub open spec fn build_in_op() -> Seq<char> {
    "BuildInFunction"@
}

/// The operators with two operands.
pub enum Binary {
    Plus,
    Minus,
    Divide,
    Multiply,
    Less,
    LessEqual,
    Great,
    GreatEqual,
    Equal,
    And,
    Or,
}

/// How an operator is written, for the text of a fault.
pub open spec fn symbol(kind: Binary) -> Seq<char> {
    match kind {
        Binary::Plus => "+"@,
        Binary::Minus => "-"@,
        Binary::Divide => "/"@,
        Binary::Multiply => "*"@,
        Binary::Less => "<"@,
        Binary::LessEqual => "<="@,
        Binary::Great => ">"@,
        Binary::GreatEqual => ">="@,
        Binary::Equal => "="@,
        Binary::And => "&&"@,
        Binary::Or => "||"@,
    }
}

pub open spec fn not_symbol() -> Seq<char> {
    "!"@
}

/// A truth value that is true and a number that is not zero count as true.
pub open spec fn truthy(v: Value) -> bool {
    match v {
        Value::Bool(b) => b,
        Value::Num(x) => !number::is_zero(x),
        _ => false,
    }
}

pub open spec fn is_scalar(v: Value) -> bool {
    v is Bool || v is Num
}

/// What an operator makes of two numbers.
pub open spec fn on_numbers(kind: Binary, a: u64, b: u64) -> Value {
    match kind {
        Binary::Plus => Value::Num(number::bits_sum(a, b)),
        Binary::Minus => Value::Num(number::bits_difference(a, b)),
        Binary::Divide => Value::Num(number::bits_quotient(a, b)),
        Binary::Multiply => Value::Num(number::bits_product(a, b)),
        Binary::Less => Value::Bool(number::less(a, b)),
        Binary::LessEqual => Value::Bool(number::less_equal(a, b)),
        Binary::Great => Value::Bool(number::less(b, a)),
        Binary::GreatEqual => Value::Bool(number::less_equal(b, a)),
        Binary::Equal => Value::Bool(number::equal(a, b)),
        Binary::And => if number::is_zero(a) {
            Value::Num(a)
        } else {
            Value::Num(b)
        },
        Binary::Or => if number::is_zero(a) {
            Value::Num(b)
        } else {
            Value::Num(a)
        },
    }
}

/// What an operator makes of the values of its operands. A fault of the
/// left operand comes first, then one of the right operand. `&&` gives the
/// right operand where the left one counts as true and the left one where it
/// does not; `||` the other way round; both leave the operand as it is. All
/// other operators take two numbers.
pub open spec fn apply(kind: Binary, left: Value, right: Value) -> Value {
    match (left, right) {
        (Value::Error(e), _) => Value::Error(e),
        (_, Value::Error(e)) => Value::Error(e),
        (Value::Num(a), Value::Num(b)) => on_numbers(kind, a, b),
        _ => if (kind is And || kind is Or) && is_scalar(left) && is_scalar(right) {
            if truthy(left) == (kind is And) {
                right
            } else {
                left
            }
        } else {
            Value::Error(message::type_mismatch(symbol(kind)))
        },
    }
}

/// What `!` makes of the value of its operand: the other truth value, and of
/// a number whether it is zero.
pub open spec fn negate(v: Value) -> Value {
    match v {
        Value::Bool(b) => Value::Bool(!b),
        Value::Num(x) => Value::Bool(number::is_zero(x)),
        Value::Error(e) => Value::Error(e),
        _ => Value::Error(message::type_mismatch(not_symbol())),
    }
}

/// What a native function handed back from one call: its value, and the
/// records of the calls that it made.
pub struct Answer {
    pub value: Value,
    pub trace: Seq<Invocation>,
}

/// An evaluation as a whole.
pub struct Outcome {
    /// The value.
    pub value: Value,
    /// The records of the calls that were made, in their order.
    pub trace: Seq<Invocation>,
    /// How many calls were made.
    pub calls: nat,
    /// The answers of native functions that were not used.
    pub rest: Seq<Answer>,
    /// Whether a native function was called when no answer was left, or
    /// none that the function gives. From there on the other fields say
    /// nothing.
    pub short: bool,
}

/// An evaluation that makes no call.
pub open spec fn plain(value: Value, answers: Seq<Answer>) -> Outcome {
    Outcome { value, trace: Seq::empty(), calls: 0, rest: answers, short: false }
}

/// `second` after `first`: the value of `second`, the calls of both.
pub open spec fn after(first: Outcome, second: Outcome) -> Outcome {
    Outcome {
        value: second.value,
        trace: first.trace + second.trace,
        calls: first.calls + second.calls,
        rest: second.rest,
        short: first.short || second.short,
    }
}

/// The call recorded as `record`, then `rest`.
pub open spec fn recorded(record: Invocation, rest: Outcome) -> Outcome {
    Outcome {
        value: rest.value,
        trace: seq![record] + rest.trace,
        calls: rest.calls + 1,
        rest: rest.rest,
        short: rest.short,
    }
}

/// The evaluation of two operands, the left one first, and of the operator.
pub open spec fn combine(kind: Binary, left: Outcome, right: Outcome) -> Outcome {
    Outcome {
        value: apply(kind, left.value, right.value),
        trace: left.trace + right.trace,
        calls: left.calls + right.calls,
        rest: right.rest,
        short: left.short || right.short,
    }
}

/// The call of the native function `native` with the arguments `args` as
/// they were written, in the scope `env` of the caller: its value and its
/// records are those of the first answer, which is one that the function
/// gives when it is called so.
pub open spec fn native_call<N: NativeFunction>(
    native: N,
    args: Seq<Node>,
    env: Bindings,
    natives: Map<Seq<char>, N>,
    depth: nat,
    answers: Seq<Answer>,
) -> Outcome {
    if answers.len() == 0 || !native.gives(
        args,
        env,
        natives,
        depth,
        answers[0].value,
        answers[0].trace,
    ) {
        Outcome { value: Value::NoValue, trace: Seq::empty(), calls: 0, rest: answers, short: true }
    } else {
        Outcome {
            value: answers[0].value,
            trace: answers[0].trace,
            calls: answers[0].trace.len(),
            rest: answers.skip(1),
            short: false,
        }
    }
}

/// The scope of a call while its arguments are bound.
pub struct Bound {
    /// The scope of the call: that of the caller and the parameters bound so
    /// far.
    pub scope: Bindings,
    /// The fault that ended the binding, if one did.
    pub fault: Option<Seq<char>>,
    pub trace: Seq<Invocation>,
    pub calls: nat,
    pub rest: Seq<Answer>,
    pub short: bool,
}

/// The node that a parameter is bound to. The value of the argument becomes
/// a constant. A function is passed by its name: the parameter is bound to
/// what that name stands for in the scope of the call.
pub open spec fn bind_value(value: Value, arg: Node, scope: Bindings, function: Seq<char>) -> Result<
    Node,
    Seq<char>,
> {
    match value {
        Value::Bool(b) => Ok(Node::Bool(b)),
        Value::Num(x) => Ok(Node::Constant(x)),
        Value::Func => match arg {
            Node::Variant(name) => if scope.dom().contains(name) {
                Ok(scope[name])
            } else {
                Err(message::unresolved_name(name))
            },
            _ => Err(message::function_argument(function)),
        },
        Value::Error(e) => Err(message::argument_failed(function, e)),
        Value::NoValue => Err(message::argument_empty(function)),
    }
}

/// How many arguments a call has.
pub open spec fn arg_count(node: Node) -> nat {
    match node {
        Node::FunctionCall { args, .. } => args.len(),
        _ => 0,
    }
}

/// How many expressions the body of a function has.
pub open spec fn body_len(node: Node) -> nat {
    match node {
        Node::Function { expressions, .. } => expressions.len(),
        _ => 0,
    }
}

/// What `node` evaluates to in the scope `env`. `natives` are the registered
/// native functions by their names, and `depth` is the number of names and
/// calls that may still be followed, one inside the other. What a native
/// function does is its own matter: `answers` are the answers of the native
/// functions that are called, in the order of their calls.
pub open spec fn eval<N: NativeFunction>(
    node: Node,
    env: Bindings,
    natives: Map<Seq<char>, N>,
    depth: nat,
    answers: Seq<Answer>,
) -> Outcome
    decreases depth, node, arg_count(node) + 1,
{
    match node {
        Node::Constant(x) => plain(Value::Num(x), answers),
        Node::Bool(b) => plain(Value::Bool(b), answers),
        Node::Variant(name) => if !env.dom().contains(name) {
            plain(Value::Error(message::unresolved_name(name)), answers)
        } else if depth == 0 {
            plain(Value::Error(message::depth_exceeded()), answers)
        } else {
            eval(env[name], env, natives, (depth - 1) as nat, answers)
        },
        Node::Operator(op) => eval_op(*op, env, natives, depth, answers),
        Node::Formula { name, formula } => eval(*formula, env, natives, depth, answers),
        Node::Quote(inner) => eval(*inner, env, natives, depth, answers),
        Node::Function { .. } => plain(Value::Func, answers),
        Node::FunctionCall { name, args } => if !env.dom().contains(name) {
            plain(Value::Error(message::undefined_function(name)), answers)
        } else {
            match env[name] {
                Node::Function { name: function, args: params, expressions } => {
                    let record = Invocation { op: function_call_op(), func: name, args };
                    if depth == 0 {
                        recorded(record, plain(Value::Error(message::depth_exceeded()), answers))
                    } else if args.len() != params.len() {
                        recorded(
                            record,
                            plain(Value::Error(message::arity_mismatch(function)), answers),
                        )
                    } else {
                        let bound = bind_args(
                            node,
                            params,
                            function,
                            0,
                            env,
                            env,
                            natives,
                            depth,
                            answers,
                        );
                        let binding = Outcome {
                            value: Value::NoValue,
                            trace: bound.trace,
                            calls: bound.calls,
                            rest: bound.rest,
                            short: bound.short,
                        };
                        match bound.fault {
                            Some(e) => recorded(
                                record,
                                after(binding, plain(Value::Error(e), bound.rest)),
                            ),
                            None => recorded(
                                record,
                                after(
                                    binding,
                                    run_body(
                                        env[name],
                                        0,
                                        bound.scope,
                                        natives,
                                        (depth - 1) as nat,
                                        Value::NoValue,
                                        bound.rest,
                                    ),
                                ),
                            ),
                        }
                    }
                },
                Node::BuildInFunction { func } => {
                    let record = Invocation { op: build_in_op(), func, args };
                    if depth == 0 {
                        recorded(record, plain(Value::Error(message::depth_exceeded()), answers))
                    } else if natives.dom().contains(func) {
                        recorded(
                            record,
                            native_call(
                                natives[func],
                                args,
                                env,
                                natives,
                                (depth - 1) as nat,
                                answers,
                            ),
                        )
                    } else {
                        recorded(
                            record,
                            plain(Value::Error(message::unregistered_native(func)), answers),
                        )
                    }
                },
                _ => recorded(
                    Invocation { op: function_call_op(), func: name, args },
                    plain(Value::Error(message::not_callable(name)), answers),
                ),
            }
        },
        _ => plain(Value::Error(message::not_evaluable()), answers),
    }
}

/// The operator of a node with two operands, and the operands; nothing for
/// `!`, which has one.
pub open spec fn operands(op: OpNode) -> Option<(Binary, Node, Node)> {
    match op {
        OpNode::Plus { left, right } => Some((Binary::Plus, *left, *right)),
        OpNode::Minus { left, right } => Some((Binary::Minus, *left, *right)),
        OpNode::Divide { left, right } => Some((Binary::Divide, *left, *right)),
        OpNode::Multiply { left, right } => Some((Binary::Multiply, *left, *right)),
        OpNode::Less { left, right } => Some((Binary::Less, *left, *right)),
        OpNode::LessEqual { left, right } => Some((Binary::LessEqual, *left, *right)),
        OpNode::Great { left, right } => Some((Binary::Great, *left, *right)),
        OpNode::GreatEqual { left, right } => Some((Binary::GreatEqual, *left, *right)),
        OpNode::Equal { left, right } => Some((Binary::Equal, *left, *right)),
        OpNode::Not(_) => None,
        OpNode::And { left, right } => Some((Binary::And, *left, *right)),
        OpNode::Or { left, right } => Some((Binary::Or, *left, *right)),
    }
}

/// What an operator evaluates to: both operands are evaluated, the left one
/// first, whatever the left one gives.
pub open spec fn eval_op<N: NativeFunction>(
    op: OpNode,
    env: Bindings,
    natives: Map<Seq<char>, N>,
    depth: nat,
    answers: Seq<Answer>,
) -> Outcome
    decreases depth, op, 0nat,
{
    match op {
        OpNode::Not(inner) => {
            let o = eval(*inner, env, natives, depth, answers);
            Outcome {
                value: negate(o.value),
                trace: o.trace,
                calls: o.calls,
                rest: o.rest,
                short: o.short,
            }
        },
        _ => match operands(op) {
            Some((kind, left, right)) => {
                let l = eval(left, env, natives, depth, answers);
                combine(kind, l, eval(right, env, natives, depth, l.rest))
            },
            None => plain(Value::NoValue, answers),
        },
    }
}

/// Binds the parameters from the one at `index` on. Each argument is
/// evaluated in the scope of the caller, before the body runs, and bound
/// under the name of its parameter in the scope of the call.
pub open spec fn bind_args<N: NativeFunction>(
    call: Node,
    params: Seq<Node>,
    function: Seq<char>,
    index: nat,
    caller: Bindings,
    scope: Bindings,
    natives: Map<Seq<char>, N>,
    depth: nat,
    answers: Seq<Answer>,
) -> Bound
    decreases depth, call, arg_count(call) - index,
{
    let done = Bound {
        scope,
        fault: None,
        trace: Seq::empty(),
        calls: 0,
        rest: answers,
        short: false,
    };
    match call {
        Node::FunctionCall { name, args } => if index < args.len() && index < params.len() {
            match params[index as int] {
                Node::Variant(param) => {
                    let a = eval(args[index as int], caller, natives, depth, answers);
                    match bind_value(a.value, args[index as int], scope, function) {
                        Ok(node) => {
                            let rest = bind_args(
                                call,
                                params,
                                function,
                                index + 1,
                                caller,
                                scope.insert(param, node),
                                natives,
                                depth,
                                a.rest,
                            );
                            Bound {
                                scope: rest.scope,
                                fault: rest.fault,
                                trace: a.trace + rest.trace,
                                calls: a.calls + rest.calls,
                                rest: rest.rest,
                                short: a.short || rest.short,
                            }
                        },
                        Err(e) => Bound {
                            scope,
                            fault: Some(e),
                            trace: a.trace,
                            calls: a.calls,
                            rest: a.rest,
                            short: a.short,
                        },
                    }
                },
                _ => Bound {
                    scope,
                    fault: Some(message::bad_parameter(function)),
                    trace: Seq::empty(),
                    calls: 0,
                    rest: answers,
                    short: false,
                },
            }
        } else {
            done
        },
        _ => done,
    }
}

/// Runs the body of the function `function` from the expression at `index`
/// on, `last` being the value of the expression before. The value of the
/// last expression is the value of the call. A named expression binds its
/// value under its name for the expressions that follow.
pub open spec fn run_body<N: NativeFunction>(
    function: Node,
    index: nat,
    scope: Bindings,
    natives: Map<Seq<char>, N>,
    depth: nat,
    last: Value,
    answers: Seq<Answer>,
) -> Outcome
    decreases depth, function, body_len(function) - index,
{
    match function {
        Node::Function { name, args, expressions } => if index < expressions.len() {
            let o = eval(expressions[index as int], scope, natives, depth, answers);
            match expressions[index as int] {
                Node::Formula { name: bound, formula } => match o.value {
                    Value::Num(x) => after(
                        o,
                        run_body(
                            function,
                            index + 1,
                            scope.insert(bound, Node::Constant(x)),
                            natives,
                            depth,
                            o.value,
                            o.rest,
                        ),
                    ),
                    Value::Bool(b) => after(
                        o,
                        run_body(
                            function,
                            index + 1,
                            scope.insert(bound, Node::Bool(b)),
                            natives,
                            depth,
                            o.value,
                            o.rest,
                        ),
                    ),
                    _ => after(o, plain(Value::Error(message::malformed_body()), o.rest)),
                },
                _ => after(o, run_body(function, index + 1, scope, natives, depth, o.value, o.rest)),
            }
        } else {
            plain(last, answers)
        },
        _ => plain(last, answers),
    }
}

} // verus!
