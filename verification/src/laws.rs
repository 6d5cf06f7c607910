//! What holds of every evaluation.

use vstd::prelude::*;
use crate::formula::{NativeFunction, Node, OpNode};
use crate::message;
use crate::semantics::{
    apply, arg_count, bind_args, bind_value, body_len, build_in_op, eval, eval_op,
    function_call_op, is_scalar, operands, run_body, truthy, Answer, Binary, Bindings, Bound,
    Invocation, Outcome, Value,
};

verus! {

/// `outcome` with `extra` behind the answers that it left.
pub open spec fn with_more(outcome: Outcome, extra: Seq<Answer>) -> Outcome {
    Outcome {
        value: outcome.value,
        trace: outcome.trace,
        calls: outcome.calls,
        rest: outcome.rest + extra,
        short: outcome.short,
    }
}

/// `bound` with `extra` behind the answers that it left.
pub open spec fn bound_with_more(bound: Bound, extra: Seq<Answer>) -> Bound {
    Bound {
        scope: bound.scope,
        fault: bound.fault,
        trace: bound.trace,
        calls: bound.calls,
        rest: bound.rest + extra,
        short: bound.short,
    }
}

/// An evaluation uses its answers from the front and leaves the others as
/// they are: with more answers behind, it goes the same way and leaves
/// those too.
pub proof fn unused_answers_are_left<N: NativeFunction>(
    node: Node,
    env: Bindings,
    natives: Map<Seq<char>, N>,
    depth: nat,
    answers: Seq<Answer>,
    extra: Seq<Answer>,
)
    ensures
        eval(node, env, natives, depth, answers).rest.len() <= answers.len(),
        !eval(node, env, natives, depth, answers).short ==> eval(
            node,
            env,
            natives,
            depth,
            answers + extra,
        ) == with_more(eval(node, env, natives, depth, answers), extra),
    decreases depth, node, arg_count(node) + 1,
{
    match node {
        Node::Variant(name) => {
            if env.dom().contains(name) && depth > 0 {
                unused_answers_are_left(env[name], env, natives, (depth - 1) as nat, answers, extra);
            }
        },
        Node::Operator(op) => {
            operator_leaves_unused_answers(*op, env, natives, depth, answers, extra);
        },
        Node::Formula { name, formula } => {
            unused_answers_are_left(*formula, env, natives, depth, answers, extra);
        },
        Node::Quote(inner) => {
            unused_answers_are_left(*inner, env, natives, depth, answers, extra);
        },
        Node::FunctionCall { name, args } => {
            if env.dom().contains(name) {
                match env[name] {
                    Node::Function { name: function, args: params, expressions } => {
                        if depth > 0 && args.len() == params.len() {
                            binding_leaves_unused_answers(
                                node,
                                params,
                                function,
                                0,
                                env,
                                env,
                                natives,
                                depth,
                                answers,
                                extra,
                            );
                            let bound = bind_args(
                                node,
                                params,
                                function,
                                0,
                                env,
                                env,
                                natives,
                                depth,
                                answers,
                            );
                            if bound.fault is None {
                                body_leaves_unused_answers(
                                    env[name],
                                    0,
                                    bound.scope,
                                    natives,
                                    (depth - 1) as nat,
                                    Value::NoValue,
                                    bound.rest,
                                    extra,
                                );
                            }
                        }
                    },
                    Node::BuildInFunction { func } => {
                        if answers.len() > 0 {
                            assert((answers + extra).skip(1) =~= answers.skip(1) + extra);
                        }
                    },
                    _ => {},
                }
            }
        },
        _ => {},
    }
}

/// The same of an operator.
pub proof fn operator_leaves_unused_answers<N: NativeFunction>(
    op: OpNode,
    env: Bindings,
    natives: Map<Seq<char>, N>,
    depth: nat,
    answers: Seq<Answer>,
    extra: Seq<Answer>,
)
    ensures
        eval_op(op, env, natives, depth, answers).rest.len() <= answers.len(),
        !eval_op(op, env, natives, depth, answers).short ==> eval_op(
            op,
            env,
            natives,
            depth,
            answers + extra,
        ) == with_more(eval_op(op, env, natives, depth, answers), extra),
    decreases depth, op, 0nat,
{
    match op {
        OpNode::Not(inner) => {
            unused_answers_are_left(*inner, env, natives, depth, answers, extra);
        },
        _ => {
            match operands(op) {
                Some((kind, left, right)) => {
                    unused_answers_are_left(left, env, natives, depth, answers, extra);
                    let l = eval(left, env, natives, depth, answers);
                    unused_answers_are_left(right, env, natives, depth, l.rest, extra);
                },
                None => {},
            }
        },
    }
}

/// The same of the binding of arguments.
pub proof fn binding_leaves_unused_answers<N: NativeFunction>(
    call: Node,
    params: Seq<Node>,
    function: Seq<char>,
    index: nat,
    caller: Bindings,
    scope: Bindings,
    natives: Map<Seq<char>, N>,
    depth: nat,
    answers: Seq<Answer>,
    extra: Seq<Answer>,
)
    ensures
        bind_args(call, params, function, index, caller, scope, natives, depth, answers).rest.len()
            <= answers.len(),
        !bind_args(call, params, function, index, caller, scope, natives, depth, answers).short
            ==> bind_args(
            call,
            params,
            function,
            index,
            caller,
            scope,
            natives,
            depth,
            answers + extra,
        ) == bound_with_more(
            bind_args(call, params, function, index, caller, scope, natives, depth, answers),
            extra,
        ),
    decreases depth, call, arg_count(call) - index,
{
    match call {
        Node::FunctionCall { name, args } => {
            if index < args.len() && index < params.len() {
                match params[index as int] {
                    Node::Variant(param) => {
                        unused_answers_are_left(
                            args[index as int],
                            caller,
                            natives,
                            depth,
                            answers,
                            extra,
                        );
                        let a = eval(args[index as int], caller, natives, depth, answers);
                        match bind_value(a.value, args[index as int], scope, function) {
                            Ok(node) => {
                                binding_leaves_unused_answers(
                                    call,
                                    params,
                                    function,
                                    index + 1,
                                    caller,
                                    scope.insert(param, node),
                                    natives,
                                    depth,
                                    a.rest,
                                    extra,
                                );
                            },
                            Err(_) => {},
                        }
                    },
                    _ => {},
                }
            }
        },
        _ => {},
    }
}

/// The same of the body of a function.
pub proof fn body_leaves_unused_answers<N: NativeFunction>(
    function: Node,
    index: nat,
    scope: Bindings,
    natives: Map<Seq<char>, N>,
    depth: nat,
    last: Value,
    answers: Seq<Answer>,
    extra: Seq<Answer>,
)
    ensures
        run_body(function, index, scope, natives, depth, last, answers).rest.len() <= answers.len(),
        !run_body(function, index, scope, natives, depth, last, answers).short ==> run_body(
            function,
            index,
            scope,
            natives,
            depth,
            last,
            answers + extra,
        ) == with_more(run_body(function, index, scope, natives, depth, last, answers), extra),
    decreases depth, function, body_len(function) - index,
{
    match function {
        Node::Function { name, args, expressions } => {
            if index < expressions.len() {
                unused_answers_are_left(
                    expressions[index as int],
                    scope,
                    natives,
                    depth,
                    answers,
                    extra,
                );
                let o = eval(expressions[index as int], scope, natives, depth, answers);
                match expressions[index as int] {
                    Node::Formula { name: bound, formula } => match o.value {
                        Value::Num(x) => {
                            body_leaves_unused_answers(
                                function,
                                index + 1,
                                scope.insert(bound, Node::Constant(x)),
                                natives,
                                depth,
                                o.value,
                                o.rest,
                                extra,
                            );
                        },
                        Value::Bool(b) => {
                            body_leaves_unused_answers(
                                function,
                                index + 1,
                                scope.insert(bound, Node::Bool(b)),
                                natives,
                                depth,
                                o.value,
                                o.rest,
                                extra,
                            );
                        },
                        _ => {},
                    },
                    _ => {
                        body_leaves_unused_answers(
                            function,
                            index + 1,
                            scope,
                            natives,
                            depth,
                            o.value,
                            o.rest,
                            extra,
                        );
                    },
                }
            }
        },
        _ => {},
    }
}

/// The trace of an evaluation has exactly one record for each call that the
/// evaluation makes, at whatever depth the call is made; a native function
/// makes as many calls as it records.
pub proof fn trace_counts_calls<N: NativeFunction>(
    node: Node,
    env: Bindings,
    natives: Map<Seq<char>, N>,
    depth: nat,
    answers: Seq<Answer>,
)
    ensures
        eval(node, env, natives, depth, answers).trace.len() == eval(
            node,
            env,
            natives,
            depth,
            answers,
        ).calls,
    decreases depth, node, arg_count(node) + 1,
{
    match node {
        Node::Variant(name) => {
            if env.dom().contains(name) && depth > 0 {
                trace_counts_calls(env[name], env, natives, (depth - 1) as nat, answers);
            }
        },
        Node::Operator(op) => {
            operator_counts_calls(*op, env, natives, depth, answers);
        },
        Node::Formula { name, formula } => {
            trace_counts_calls(*formula, env, natives, depth, answers);
        },
        Node::Quote(inner) => {
            trace_counts_calls(*inner, env, natives, depth, answers);
        },
        Node::FunctionCall { name, args } => {
            if env.dom().contains(name) {
                match env[name] {
                    Node::Function { name: function, args: params, expressions } => {
                        if depth > 0 && args.len() == params.len() {
                            binding_counts_calls(
                                node,
                                params,
                                function,
                                0,
                                env,
                                env,
                                natives,
                                depth,
                                answers,
                            );
                            let bound = bind_args(
                                node,
                                params,
                                function,
                                0,
                                env,
                                env,
                                natives,
                                depth,
                                answers,
                            );
                            if bound.fault is None {
                                body_counts_calls(
                                    env[name],
                                    0,
                                    bound.scope,
                                    natives,
                                    (depth - 1) as nat,
                                    Value::NoValue,
                                    bound.rest,
                                );
                            }
                        }
                    },
                    _ => {},
                }
            }
        },
        _ => {},
    }
}

proof fn operator_counts_calls<N: NativeFunction>(
    op: OpNode,
    env: Bindings,
    natives: Map<Seq<char>, N>,
    depth: nat,
    answers: Seq<Answer>,
)
    ensures
        eval_op(op, env, natives, depth, answers).trace.len() == eval_op(
            op,
            env,
            natives,
            depth,
            answers,
        ).calls,
    decreases depth, op, 0nat,
{
    match op {
        OpNode::Not(inner) => {
            trace_counts_calls(*inner, env, natives, depth, answers);
        },
        _ => {
            match operands(op) {
                Some((kind, left, right)) => {
                    trace_counts_calls(left, env, natives, depth, answers);
                    let l = eval(left, env, natives, depth, answers);
                    trace_counts_calls(right, env, natives, depth, l.rest);
                },
                None => {},
            }
        },
    }
}

proof fn binding_counts_calls<N: NativeFunction>(
    call: Node,
    params: Seq<Node>,
    function: Seq<char>,
    index: nat,
    caller: Bindings,
    scope: Bindings,
    natives: Map<Seq<char>, N>,
    depth: nat,
    answers: Seq<Answer>,
)
    ensures
        bind_args(call, params, function, index, caller, scope, natives, depth, answers).trace.len()
            == bind_args(call, params, function, index, caller, scope, natives, depth, answers).calls,
    decreases depth, call, arg_count(call) - index,
{
    match call {
        Node::FunctionCall { name, args } => {
            if index < args.len() && index < params.len() {
                match params[index as int] {
                    Node::Variant(param) => {
                        trace_counts_calls(args[index as int], caller, natives, depth, answers);
                        let a = eval(args[index as int], caller, natives, depth, answers);
                        match bind_value(a.value, args[index as int], scope, function) {
                            Ok(node) => {
                                binding_counts_calls(
                                    call,
                                    params,
                                    function,
                                    index + 1,
                                    caller,
                                    scope.insert(param, node),
                                    natives,
                                    depth,
                                    a.rest,
                                );
                            },
                            Err(_) => {},
                        }
                    },
                    _ => {},
                }
            }
        },
        _ => {},
    }
}

proof fn body_counts_calls<N: NativeFunction>(
    function: Node,
    index: nat,
    scope: Bindings,
    natives: Map<Seq<char>, N>,
    depth: nat,
    last: Value,
    answers: Seq<Answer>,
)
    ensures
        run_body(function, index, scope, natives, depth, last, answers).trace.len() == run_body(
            function,
            index,
            scope,
            natives,
            depth,
            last,
            answers,
        ).calls,
    decreases depth, function, body_len(function) - index,
{
    match function {
        Node::Function { name, args, expressions } => {
            if index < expressions.len() {
                trace_counts_calls(expressions[index as int], scope, natives, depth, answers);
                let o = eval(expressions[index as int], scope, natives, depth, answers);
                match expressions[index as int] {
                    Node::Formula { name: bound, formula } => match o.value {
                        Value::Num(x) => {
                            body_counts_calls(
                                function,
                                index + 1,
                                scope.insert(bound, Node::Constant(x)),
                                natives,
                                depth,
                                o.value,
                                o.rest,
                            );
                        },
                        Value::Bool(b) => {
                            body_counts_calls(
                                function,
                                index + 1,
                                scope.insert(bound, Node::Bool(b)),
                                natives,
                                depth,
                                o.value,
                                o.rest,
                            );
                        },
                        _ => {},
                    },
                    _ => {
                        body_counts_calls(
                            function,
                            index + 1,
                            scope,
                            natives,
                            depth,
                            o.value,
                            o.rest,
                        );
                    },
                }
            }
        },
        _ => {},
    }
}

/// The record of a call stands before the records of the calls that are
/// made for it: the trace of a call of a name that is bound begins with the
/// record of that call, with the arguments as they were written.
pub proof fn call_is_recorded_first<N: NativeFunction>(
    name: Seq<char>,
    args: Seq<Node>,
    env: Bindings,
    natives: Map<Seq<char>, N>,
    depth: nat,
    answers: Seq<Answer>,
)
    requires
        env.dom().contains(name),
    ensures
        ({
            let o = eval(Node::FunctionCall { name, args }, env, natives, depth, answers);
            &&& o.trace.len() >= 1
            &&& o.trace[0].args == args
            &&& match env[name] {
                Node::BuildInFunction { func } => o.trace[0].op == build_in_op() && o.trace[0].func
                    == func,
                _ => o.trace[0].op == function_call_op() && o.trace[0].func == name,
            }
        }),
{
}

/// The call of a registered native function is recorded once; its value is
/// what the native function hands back when it is called with the arguments
/// as they were written and the scope of the caller, and the records of the
/// native function follow the record of the call.
pub proof fn native_call_is_recorded_once<N: NativeFunction>(
    name: Seq<char>,
    args: Seq<Node>,
    env: Bindings,
    natives: Map<Seq<char>, N>,
    depth: nat,
    answers: Seq<Answer>,
)
    requires
        depth > 0,
        env.dom().contains(name),
        env[name] is BuildInFunction,
        natives.dom().contains(env[name]->func),
        answers.len() > 0,
        natives[env[name]->func].gives(
            args,
            env,
            natives,
            (depth - 1) as nat,
            answers[0].value,
            answers[0].trace,
        ),
    ensures
        ({
            let o = eval(Node::FunctionCall { name, args }, env, natives, depth, answers);
            &&& !o.short
            &&& o.value == answers[0].value
            &&& o.trace == seq![
                Invocation { op: build_in_op(), func: env[name]->func, args },
            ] + answers[0].trace
            &&& o.rest == answers.skip(1)
        }),
{
}

/// A call of a name that nothing is bound to is a fault that names it, and
/// is not recorded.
pub proof fn undefined_function_is_reported<N: NativeFunction>(
    name: Seq<char>,
    args: Seq<Node>,
    env: Bindings,
    natives: Map<Seq<char>, N>,
    depth: nat,
    answers: Seq<Answer>,
)
    requires
        !env.dom().contains(name),
    ensures
        ({
            let o = eval(Node::FunctionCall { name, args }, env, natives, depth, answers);
            &&& o.value == Value::Error(message::undefined_function(name))
            &&& o.trace.len() == 0
            &&& !o.short
        }),
{
}

/// A name that nothing is bound to evaluates to a fault whose text ends
/// with the name.
pub proof fn unresolved_name_is_reported<N: NativeFunction>(
    name: Seq<char>,
    env: Bindings,
    natives: Map<Seq<char>, N>,
    depth: nat,
    answers: Seq<Answer>,
)
    requires
        !env.dom().contains(name),
    ensures
        ({
            let o = eval(Node::Variant(name), env, natives, depth, answers);
            &&& o.value == Value::Error(message::unresolved_name(name))
            &&& message::unresolved_name(name).len() >= name.len()
            &&& message::unresolved_name(name).skip(
                message::unresolved_name(name).len() - name.len(),
            ) == name
            &&& o.trace.len() == 0
        }),
{
    let text = message::unresolved_name(name);
    assert(text.skip(text.len() - name.len()) =~= name);
}

/// A call with more or fewer arguments than the function has parameters is
/// a fault that names the function; the call is recorded, and nothing else
/// is.
pub proof fn arity_mismatch_is_reported<N: NativeFunction>(
    name: Seq<char>,
    args: Seq<Node>,
    env: Bindings,
    natives: Map<Seq<char>, N>,
    depth: nat,
    answers: Seq<Answer>,
)
    requires
        depth > 0,
        env.dom().contains(name),
        env[name] is Function,
        env[name]->Function_args.len() != args.len(),
    ensures
        ({
            let o = eval(Node::FunctionCall { name, args }, env, natives, depth, answers);
            &&& o.value == Value::Error(message::arity_mismatch(env[name]->Function_name))
            &&& o.trace == seq![Invocation { op: function_call_op(), func: name, args }]
            &&& !o.short
        }),
{
    let o = eval(Node::FunctionCall { name, args }, env, natives, depth, answers);
    assert(o.trace =~= seq![Invocation { op: function_call_op(), func: name, args }]);
}

/// `&&` and `||` hand on one of their operands as it is, a number as a
/// number and a truth value as a truth value: `&&` the right one where the
/// left one counts as true, else the left one; `||` the left one where it
/// counts as true, else the right one.
pub proof fn logical_operators_keep_the_operand(left: Value, right: Value)
    requires
        is_scalar(left),
        is_scalar(right),
    ensures
        apply(Binary::And, left, right) == (if truthy(left) {
            right
        } else {
            left
        }),
        apply(Binary::Or, left, right) == (if truthy(left) {
            left
        } else {
            right
        }),
{
}

} // verus!
