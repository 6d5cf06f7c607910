//! The evaluator: computes the value of a tree in a chain of scopes and
//! records every call that it makes.

use vstd::prelude::*;
use vstd::std_specs::cmp::PartialEqSpecImpl;
use std::rc::Rc;
use crate::env::Env;
use crate::formula::{
    share_all, view_all, FormulaNode, FuncContext, NativeFunction, Node, OperatorNode,
};
use crate::laws;
use crate::message;
use crate::number;
use crate::semantics;
use crate::semantics::{Answer, Binary, Bindings, Bound, Invocation, Outcome, Value};

verus! {

/// The result of an evaluation.
#[derive(Debug)]
pub enum CalculateOption {
    Bool(bool),
    /// A number, as the 64 bits of an IEEE 754 binary64 value.
    Num(u64),
    /// A fault, with its text.
    Error(String),
    /// What the definition of a function evaluates to.
    Func,
    /// No value.
    NoValue,
}

/// Whether two results are the same truth value or equal numbers. A fault,
/// a function and a missing value equal nothing, not even themselves.
pub open spec fn same_value(a: Value, b: Value) -> bool {
    match (a, b) {
        (Value::Bool(x), Value::Bool(y)) => x == y,
        (Value::Num(x), Value::Num(y)) => number::equal(x, y),
        _ => false,
    }
}

impl CalculateOption {
    pub open spec fn view(&self) -> Value {
        match self {
            CalculateOption::Bool(b) => Value::Bool(*b),
            CalculateOption::Num(x) => Value::Num(*x),
            CalculateOption::Error(e) => Value::Error(e@),
            CalculateOption::Func => Value::Func,
            CalculateOption::NoValue => Value::NoValue,
        }
    }

    /// Whether both are the same truth value or equal numbers.
    pub fn eq(&self, other: &CalculateOption) -> (r: bool)
        ensures
            r == same_value(self@, other@),
    {
        match (self, other) {
            (CalculateOption::Bool(a), CalculateOption::Bool(b)) => *a == *b,
            (CalculateOption::Num(a), CalculateOption::Num(b)) => number::eq(*a, *b),
            _ => false,
        }
    }

    /// A result with the same value.
    pub fn duplicate(&self) -> (r: CalculateOption)
        ensures
            r@ == self@,
    {
        match self {
            CalculateOption::Bool(b) => CalculateOption::Bool(*b),
            CalculateOption::Num(x) => CalculateOption::Num(*x),
            CalculateOption::Error(e) => CalculateOption::Error(e.clone()),
            CalculateOption::Func => CalculateOption::Func,
            CalculateOption::NoValue => CalculateOption::NoValue,
        }
    }
}

impl PartialEq for CalculateOption {
    fn eq(&self, other: &CalculateOption) -> (r: bool) {
        CalculateOption::eq(self, other)
    }
}

impl PartialEqSpecImpl for CalculateOption {
    open spec fn obeys_eq_spec() -> bool {
        true
    }

    open spec fn eq_spec(&self, other: &CalculateOption) -> bool {
        same_value(self@, other@)
    }
}

/// One record of the call trace.
#[derive(Debug)]
pub struct StackInfo {
    /// `FunctionCall` or `BuildInFunction`.
    pub op: String,
    /// The name that was called.
    pub func: String,
    /// The arguments as they were written, not evaluated.
    pub args: Vec<Rc<FormulaNode>>,
}

impl StackInfo {
    pub open spec fn view(&self) -> Invocation {
        Invocation { op: self.op@, func: self.func@, args: view_all(self.args@) }
    }

    /// A record of its own with the same content.
    pub fn duplicate(&self) -> (r: StackInfo)
        ensures
            r@ == self@,
    {
        StackInfo { op: self.op.clone(), func: self.func.clone(), args: share_all(&self.args) }
    }
}

/// The models of the records of a trace, one by one.
pub open spec fn trace_view(records: Seq<StackInfo>) -> Seq<Invocation> {
    Seq::new(records.len(), |i: int| records[i]@)
}

/// Whether `new` is `old` with records added at its end.
pub open spec fn extends(new: Seq<Invocation>, old: Seq<Invocation>) -> bool {
    old.len() <= new.len() && new.take(old.len() as int) =~= old
}

/// The call trace: the records of the calls of one evaluation, in the order
/// in which they were made. Records are only ever added.
pub struct CallStack {
    stack: Vec<StackInfo>,
}

impl CallStack {
    pub closed spec fn view(&self) -> Seq<Invocation> {
        trace_view(self.stack@)
    }

    /// A trace without records.
    pub fn new() -> (r: CallStack)
        ensures
            r@ == Seq::<Invocation>::empty(),
    {
        let r = CallStack { stack: Vec::new() };
        assert(r@ =~= Seq::<Invocation>::empty());
        r
    }

    /// Adds the record of a call.
    pub fn set_stack(&mut self, op: &str, func: &str, args: Vec<Rc<FormulaNode>>)
        ensures
            final(self)@ == old(self)@.push(
                Invocation { op: op@, func: func@, args: view_all(args@) },
            ),
    {
        let record = StackInfo { op: String::from_str(op), func: String::from_str(func), args };
        self.stack.push(record);
        assert(self@ =~= old(self)@.push(Invocation { op: op@, func: func@, args: view_all(args@) }));
    }

    /// The records so far.
    pub fn call_stack(&self) -> (r: Vec<StackInfo>)
        ensures
            trace_view(r@) == self@,
    {
        let mut r: Vec<StackInfo> = Vec::new();
        let mut i: usize = 0;
        while i < self.stack.len()
            invariant
                0 <= i <= self.stack.len(),
                r@.len() == i,
                self@.len() == self.stack@.len(),
                forall|j: int| 0 <= j < i ==> (#[trigger] r@[j])@ == self.stack@[j]@,
            decreases self.stack.len() - i,
        {
            r.push(self.stack[i].duplicate());
            i += 1;
        }
        assert(trace_view(r@) =~= self@);
        r
    }

    /// Adds the records of `other` at the end.
    pub fn append(&mut self, other: CallStack)
        ensures
            final(self)@ == old(self)@ + other@,
    {
        let ghost added = other@;
        let mut other = other;
        self.stack.append(&mut other.stack);
        assert(self@ =~= old(self)@ + added);
    }
}

/// What `calculate` hands back: the value, and the records of the calls
/// that were made on the way.
#[derive(Debug)]
pub struct CalculateResult {
    pub value: CalculateOption,
    pub more: Vec<StackInfo>,
}

fn fault(text: String) -> (r: CalculateOption)
    ensures
        r@ == Value::Error(text@),
{
    CalculateOption::Error(text)
}

fn symbol(kind: &Binary) -> (r: &'static str)
    ensures
        r@ == semantics::symbol(*kind),
{
    match kind {
        Binary::Plus => "+",
        Binary::Minus => "-",
        Binary::Divide => "/",
        Binary::Multiply => "*",
        Binary::Less => "<",
        Binary::LessEqual => "<=",
        Binary::Great => ">",
        Binary::GreatEqual => ">=",
        Binary::Equal => "=",
        Binary::And => "&&",
        Binary::Or => "||",
    }
}

fn truthy(v: &CalculateOption) -> (r: bool)
    ensures
        r == semantics::truthy(v@),
{
    match v {
        CalculateOption::Bool(b) => *b,
        CalculateOption::Num(x) => !number::zero(*x),
        _ => false,
    }
}

fn is_scalar(v: &CalculateOption) -> (r: bool)
    ensures
        r == semantics::is_scalar(v@),
{
    match v {
        CalculateOption::Bool(_) => true,
        CalculateOption::Num(_) => true,
        _ => false,
    }
}

fn on_numbers(kind: &Binary, a: u64, b: u64) -> (r: CalculateOption)
    ensures
        r@ == semantics::on_numbers(*kind, a, b),
{
    match kind {
        Binary::Plus => CalculateOption::Num(number::sum(a, b)),
        Binary::Minus => CalculateOption::Num(number::difference(a, b)),
        Binary::Divide => CalculateOption::Num(number::quotient(a, b)),
        Binary::Multiply => CalculateOption::Num(number::product(a, b)),
        Binary::Less => CalculateOption::Bool(number::lt(a, b)),
        Binary::LessEqual => CalculateOption::Bool(number::le(a, b)),
        Binary::Great => CalculateOption::Bool(number::lt(b, a)),
        Binary::GreatEqual => CalculateOption::Bool(number::le(b, a)),
        Binary::Equal => CalculateOption::Bool(number::eq(a, b)),
        Binary::And => if number::zero(a) {
            CalculateOption::Num(a)
        } else {
            CalculateOption::Num(b)
        },
        Binary::Or => if number::zero(a) {
            CalculateOption::Num(b)
        } else {
            CalculateOption::Num(a)
        },
    }
}

/// What an operator with two operands makes of their values.
pub fn apply(kind: Binary, left: CalculateOption, right: CalculateOption) -> (r: CalculateOption)
    ensures
        r@ == semantics::apply(kind, left@, right@),
{
    match (left, right) {
        (CalculateOption::Error(e), _) => CalculateOption::Error(e),
        (_, CalculateOption::Error(e)) => CalculateOption::Error(e),
        (CalculateOption::Num(a), CalculateOption::Num(b)) => on_numbers(&kind, a, b),
        (l, r) => {
            let logical = match kind {
                Binary::And => true,
                Binary::Or => true,
                _ => false,
            };
            if logical && is_scalar(&l) && is_scalar(&r) {
                let wants = match kind {
                    Binary::And => true,
                    _ => false,
                };
                if truthy(&l) == wants {
                    r
                } else {
                    l
                }
            } else {
                fault(message::type_mismatch_text(symbol(&kind)))
            }
        },
    }
}

/// What `!` makes of the value of its operand.
pub fn negate(v: CalculateOption) -> (r: CalculateOption)
    ensures
        r@ == semantics::negate(v@),
{
    match v {
        CalculateOption::Bool(b) => CalculateOption::Bool(!b),
        CalculateOption::Num(x) => CalculateOption::Bool(number::zero(x)),
        CalculateOption::Error(e) => CalculateOption::Error(e),
        _ => fault(message::type_mismatch_text("!")),
    }
}

/// How many arguments a call has.
pub open spec fn arg_total(node: &FormulaNode) -> nat {
    match node {
        FormulaNode::FunctionCall { args, .. } => args@.len(),
        _ => 0,
    }
}

/// How many expressions the body of a function has.
pub open spec fn body_total(node: &FormulaNode) -> nat {
    match node {
        FormulaNode::Function { expressions, .. } => expressions@.len(),
        _ => 0,
    }
}

/// Whether an evaluation went as `outcome` says: no answer was missing and
/// none is left, the value is its value, and its records were added to the
/// trace.
pub open spec fn follows(
    outcome: Outcome,
    value: Value,
    before: Seq<Invocation>,
    after: Seq<Invocation>,
) -> bool {
    !outcome.short && outcome.rest.len() == 0 && value == outcome.value && after =~= before
        + outcome.trace
}

/// Whether an evaluation went as `outcome` says, where `outcome` needs no
/// answer that it has not got.
pub open spec fn agrees(
    outcome: Outcome,
    value: Value,
    before: Seq<Invocation>,
    after: Seq<Invocation>,
) -> bool {
    !outcome.short ==> value == outcome.value && after =~= before + outcome.trace
}

/// The text of a fault that may be missing.
pub open spec fn fault_view(fault: Option<String>) -> Option<Seq<char>> {
    match fault {
        Some(text) => Some(text@),
        None => None,
    }
}

/// Whether the binding of arguments went as `bound` says.
pub open spec fn binding_follows(
    bound: Bound,
    fault: Option<Seq<char>>,
    scope: Bindings,
    before: Seq<Invocation>,
    after: Seq<Invocation>,
) -> bool {
    !bound.short && bound.rest.len() == 0 && bound.fault == fault && bound.scope == scope && after
        =~= before + bound.trace
}

proof fn lemma_extends_add(old: Seq<Invocation>, added: Seq<Invocation>)
    ensures
        extends(old + added, old),
{
}

proof fn lemma_extends_twice(a: Seq<Invocation>, b: Seq<Invocation>, c: Seq<Invocation>)
    requires
        extends(b, a),
        extends(c, b),
    ensures
        extends(c, a),
{
    assert(c.take(a.len() as int) =~= b.take(a.len() as int));
}

/// An evaluation that used all of `first` goes the same way with `second`
/// behind and leaves `second`.
proof fn lemma_then<N: NativeFunction>(
    node: Node,
    env: Bindings,
    natives: Map<Seq<char>, N>,
    depth: nat,
    first: Seq<Answer>,
    second: Seq<Answer>,
)
    requires
        !semantics::eval(node, env, natives, depth, first).short,
        semantics::eval(node, env, natives, depth, first).rest.len() == 0,
    ensures
        ({
            let o = semantics::eval(node, env, natives, depth, first);
            semantics::eval(node, env, natives, depth, first + second) == Outcome {
                value: o.value,
                trace: o.trace,
                calls: o.calls,
                rest: second,
                short: false,
            }
        }),
{
    laws::unused_answers_are_left(node, env, natives, depth, first, second);
    let o = semantics::eval(node, env, natives, depth, first);
    assert(o.rest + second =~= second);
}

/// Where no answer is needed, none was used: an evaluation that followed
/// some answers went as it goes without any.
pub proof fn exact_without_answers<N: NativeFunction>(
    node: Node,
    env: Bindings,
    natives: Map<Seq<char>, N>,
    depth: nat,
    answers: Seq<Answer>,
    value: Value,
    before: Seq<Invocation>,
    after: Seq<Invocation>,
)
    requires
        follows(semantics::eval(node, env, natives, depth, answers), value, before, after),
    ensures
        agrees(
            semantics::eval(node, env, natives, depth, Seq::empty()),
            value,
            before,
            after,
        ),
{
    let none = Seq::<Answer>::empty();
    let o = semantics::eval(node, env, natives, depth, none);
    if !o.short {
        laws::unused_answers_are_left(node, env, natives, depth, none, answers);
        assert(none + answers =~= answers);
        assert(o.rest + answers =~= answers);
    }
}

impl FormulaNode {
    /// Evaluates the node in the scope `env`. Every call that is made is
    /// recorded at the end of `stack`. `depth` says how many names and
    /// calls may be followed, one inside the other; where there are more,
    /// the value is a fault.
    ///
    /// The value and the records are those of `semantics::eval`, for the
    /// answers that the native functions gave; where no native function is
    /// reached, they are those of `semantics::eval` without answers.
    pub fn calc<N: NativeFunction>(
        &self,
        env: &Env<'_, N>,
        stack: &mut CallStack,
        depth: usize,
    ) -> (r: CalculateOption)
        ensures
            extends(final(stack)@, old(stack)@),
            exists|answers: Seq<Answer>|
                follows(
                    #[trigger] semantics::eval(self@, env@, env.build_ins(), depth as nat, answers),
                    r@,
                    old(stack)@,
                    final(stack)@,
                ),
            agrees(
                semantics::eval(self@, env@, env.build_ins(), depth as nat, Seq::empty()),
                r@,
                old(stack)@,
                final(stack)@,
            ),
        decreases depth, self, arg_total(self) + 2,
    {
        let ghost start = stack@;
        let ghost mut used: Seq<Answer> = Seq::empty();
        let ghost natives = env.build_ins();
        let r = match self {
            FormulaNode::Constant(x) => CalculateOption::Num(*x),
            FormulaNode::Bool(b) => CalculateOption::Bool(*b),
            FormulaNode::Variant(name) => match env.get(name.as_str()) {
                Some(bound) => {
                    if depth == 0 {
                        fault(message::depth_exceeded_text())
                    } else {
                        let r = bound.calc(env, stack, depth - 1);
                        proof {
                            used = choose|answers: Seq<Answer>|
                                follows(
                                    #[trigger] semantics::eval(
                                        bound@,
                                        env@,
                                        natives,
                                        (depth - 1) as nat,
                                        answers,
                                    ),
                                    r@,
                                    start,
                                    stack@,
                                );
                        }
                        r
                    }
                },
                None => fault(message::unresolved_name_text(name.as_str())),
            },
            FormulaNode::Operator(op) => {
                let r = op.calc(env, stack, depth);
                proof {
                    used = choose|answers: Seq<Answer>|
                        follows(
                            #[trigger] semantics::eval_op(op@, env@, natives, depth as nat, answers),
                            r@,
                            start,
                            stack@,
                        );
                }
                r
            },
            FormulaNode::Formula { name, formula } => {
                let r = formula.calc(env, stack, depth);
                proof {
                    used = choose|answers: Seq<Answer>|
                        follows(
                            #[trigger] semantics::eval(formula@, env@, natives, depth as nat, answers),
                            r@,
                            start,
                            stack@,
                        );
                }
                r
            },
            FormulaNode::Quote(inner) => {
                let r = inner.calc(env, stack, depth);
                proof {
                    used = choose|answers: Seq<Answer>|
                        follows(
                            #[trigger] semantics::eval(inner@, env@, natives, depth as nat, answers),
                            r@,
                            start,
                            stack@,
                        );
                }
                r
            },
            FormulaNode::Function { .. } => CalculateOption::Func,
            FormulaNode::FunctionCall { .. } => {
                let r = self.call(env, stack, depth);
                proof {
                    used = choose|answers: Seq<Answer>|
                        follows(
                            #[trigger] semantics::eval(self@, env@, natives, depth as nat, answers),
                            r@,
                            start,
                            stack@,
                        );
                }
                r
            },
            _ => fault(message::not_evaluable_text()),
        };
        proof {
            assert(follows(
                semantics::eval(self@, env@, natives, depth as nat, used),
                r@,
                start,
                stack@,
            ));
            exact_without_answers(self@, env@, natives, depth as nat, used, r@, start, stack@);
        }
        r
    }

    /// Evaluates a call: finds what the name stands for, records the call,
    /// and runs the function or calls the native function.
    fn call<N: NativeFunction>(&self, env: &Env<'_, N>, stack: &mut CallStack, depth: usize) -> (r:
        CalculateOption)
        requires
            self is FunctionCall,
        ensures
            extends(final(stack)@, old(stack)@),
            exists|answers: Seq<Answer>|
                follows(
                    #[trigger] semantics::eval(self@, env@, env.build_ins(), depth as nat, answers),
                    r@,
                    old(stack)@,
                    final(stack)@,
                ),
        decreases depth, self, arg_total(self) + 1,
    {
        let ghost start = stack@;
        let ghost natives = env.build_ins();
        let ghost none = Seq::<Answer>::empty();
        match self {
            FormulaNode::FunctionCall { name, args } => {
                let target = match env.get(name.as_str()) {
                    Some(target) => target,
                    None => {
                        let r = fault(message::undefined_function_text(name.as_str()));
                        assert(follows(
                            semantics::eval(self@, env@, natives, depth as nat, none),
                            r@,
                            start,
                            stack@,
                        ));
                        return r;
                    },
                };
                match &*target {
                    FormulaNode::Function { name: function, args: params, expressions } => {
                        stack.set_stack("FunctionCall", name.as_str(), share_all(args));
                        let ghost record = Invocation {
                            op: semantics::function_call_op(),
                            func: name@,
                            args: view_all(args@),
                        };
                        let ghost recorded = stack@;
                        assert(recorded == start + seq![record]);
                        if depth == 0 {
                            let r = fault(message::depth_exceeded_text());
                            assert(follows(
                                semantics::eval(self@, env@, natives, depth as nat, none),
                                r@,
                                start,
                                stack@,
                            ));
                            return r;
                        }
                        if args.len() != params.len() {
                            let r = fault(message::arity_mismatch_text(function.as_str()));
                            assert(follows(
                                semantics::eval(self@, env@, natives, depth as nat, none),
                                r@,
                                start,
                                stack@,
                            ));
                            return r;
                        }
                        let mut scope = Env::extend(env);
                        let bound_fault = bind_args(
                            self,
                            params,
                            function.as_str(),
                            0,
                            env,
                            &mut scope,
                            stack,
                            depth,
                        );
                        let ghost middle = stack@;
                        let ghost first = choose|answers: Seq<Answer>|
                            binding_follows(
                                #[trigger] semantics::bind_args(
                                    self@,
                                    view_all(params@),
                                    function@,
                                    0,
                                    env@,
                                    env@,
                                    natives,
                                    depth as nat,
                                    answers,
                                ),
                                fault_view(bound_fault),
                                scope@,
                                recorded,
                                middle,
                            );
                        let ghost bound = semantics::bind_args(
                            self@,
                            view_all(params@),
                            function@,
                            0,
                            env@,
                            env@,
                            natives,
                            depth as nat,
                            first,
                        );
                        proof {
                            lemma_extends_twice(start, recorded, middle);
                            assert(bound.rest =~= none);
                        }
                        match bound_fault {
                            Some(e) => {
                                let r = fault(e);
                                proof {
                                    assert(middle =~= start + (seq![record] + (bound.trace
                                        + Seq::<Invocation>::empty())));
                                    assert(follows(
                                        semantics::eval(self@, env@, natives, depth as nat, first),
                                        r@,
                                        start,
                                        stack@,
                                    ));
                                }
                                r
                            },
                            None => {
                                let r = run_body(
                                    &target,
                                    0,
                                    &mut scope,
                                    stack,
                                    depth - 1,
                                    CalculateOption::NoValue,
                                );
                                proof {
                                    lemma_extends_twice(start, middle, stack@);
                                    let second = choose|answers: Seq<Answer>|
                                        follows(
                                            #[trigger] semantics::run_body(
                                                target@,
                                                0,
                                                bound.scope,
                                                natives,
                                                (depth - 1) as nat,
                                                Value::NoValue,
                                                answers,
                                            ),
                                            r@,
                                            middle,
                                            stack@,
                                        );
                                    let body = semantics::run_body(
                                        target@,
                                        0,
                                        bound.scope,
                                        natives,
                                        (depth - 1) as nat,
                                        Value::NoValue,
                                        second,
                                    );
                                    laws::binding_leaves_unused_answers(
                                        self@,
                                        view_all(params@),
                                        function@,
                                        0,
                                        env@,
                                        env@,
                                        natives,
                                        depth as nat,
                                        first,
                                        second,
                                    );
                                    assert(bound.rest + second =~= second);
                                    assert(stack@ =~= start + (seq![record] + (bound.trace
                                        + body.trace)));
                                    assert(follows(
                                        semantics::eval(
                                            self@,
                                            env@,
                                            natives,
                                            depth as nat,
                                            first + second,
                                        ),
                                        r@,
                                        start,
                                        stack@,
                                    ));
                                }
                                r
                            },
                        }
                    },
                    FormulaNode::BuildInFunction { func } => {
                        stack.set_stack("BuildInFunction", func.as_str(), share_all(args));
                        let ghost record = Invocation {
                            op: semantics::build_in_op(),
                            func: func@,
                            args: view_all(args@),
                        };
                        let ghost recorded = stack@;
                        assert(recorded == start + seq![record]);
                        if depth == 0 {
                            let r = fault(message::depth_exceeded_text());
                            assert(follows(
                                semantics::eval(self@, env@, natives, depth as nat, none),
                                r@,
                                start,
                                stack@,
                            ));
                            return r;
                        }
                        match env.get_build_in(func.as_str()) {
                            Some(native) => {
                                let r = call_build_in(native, args, env, stack, depth - 1);
                                proof {
                                    lemma_extends_twice(start, recorded, stack@);
                                    let added = stack@.skip(recorded.len() as int);
                                    assert(stack@ =~= recorded + added);
                                    let answer = Answer { value: r@, trace: added };
                                    assert(seq![answer].skip(1) =~= none);
                                    assert(stack@ =~= start + (seq![record] + added));
                                    assert(follows(
                                        semantics::eval(
                                            self@,
                                            env@,
                                            natives,
                                            depth as nat,
                                            seq![answer],
                                        ),
                                        r@,
                                        start,
                                        stack@,
                                    ));
                                }
                                r
                            },
                            None => {
                                let r = fault(message::unregistered_native_text(func.as_str()));
                                assert(follows(
                                    semantics::eval(self@, env@, natives, depth as nat, none),
                                    r@,
                                    start,
                                    stack@,
                                ));
                                r
                            },
                        }
                    },
                    _ => {
                        stack.set_stack("FunctionCall", name.as_str(), share_all(args));
                        assert(stack@ == start + seq![
                            Invocation {
                                op: semantics::function_call_op(),
                                func: name@,
                                args: view_all(args@),
                            },
                        ]);
                        let r = fault(message::not_callable_text(name.as_str()));
                        assert(follows(
                            semantics::eval(self@, env@, natives, depth as nat, none),
                            r@,
                            start,
                            stack@,
                        ));
                        r
                    },
                }
            },
            _ => CalculateOption::NoValue,
        }
    }
}

/// Takes what a native function handed back: its value is the value of the
/// call as it is, and the calls that it recorded are added to the trace.
pub fn native_result(stack: &mut CallStack, recorded: CallStack, value: CalculateOption) -> (r:
    CalculateOption)
    ensures
        r == value,
        final(stack)@ == old(stack)@ + recorded@,
{
    stack.append(recorded);
    value
}

/// Calls the native function `native` with the arguments as they were
/// written and the scope of the caller, and takes what it hands back: its
/// value is the value of the call, and what it recorded is added to the
/// trace.
pub fn call_build_in<N: NativeFunction>(
    native: &N,
    args: &Vec<Rc<FormulaNode>>,
    env: &Env<'_, N>,
    stack: &mut CallStack,
    depth: usize,
) -> (r: CalculateOption)
    ensures
        extends(final(stack)@, old(stack)@),
        native.gives(
            view_all(args@),
            env@,
            env.build_ins(),
            depth as nat,
            r@,
            final(stack)@.skip(old(stack)@.len() as int),
        ),
{
    let context = FuncContext::new(args, env, depth);
    let mut recorded = CallStack::new();
    let value = native.call(&context, &mut recorded);
    proof {
        lemma_extends_add(stack@, recorded@);
        assert((stack@ + recorded@).skip(stack@.len() as int) =~= recorded@);
    }
    native_result(stack, recorded, value)
}

/// Binds the parameters from the one at `index` on in `scope`, the scope of
/// the call; the arguments are evaluated in `caller`. Hands back the fault
/// that ended the binding, if one did.
pub fn bind_args<N: NativeFunction>(
    call: &FormulaNode,
    params: &Vec<Rc<FormulaNode>>,
    function: &str,
    index: usize,
    caller: &Env<'_, N>,
    scope: &mut Env<'_, N>,
    stack: &mut CallStack,
    depth: usize,
) -> (r: Option<String>)
    ensures
        extends(final(stack)@, old(stack)@),
        final(scope).build_ins() == old(scope).build_ins(),
        exists|answers: Seq<Answer>|
            binding_follows(
                #[trigger] semantics::bind_args(
                    call@,
                    view_all(params@),
                    function@,
                    index as nat,
                    caller@,
                    old(scope)@,
                    caller.build_ins(),
                    depth as nat,
                    answers,
                ),
                fault_view(r),
                final(scope)@,
                old(stack)@,
                final(stack)@,
            ),
    decreases depth, call, arg_total(call) - index,
{
    let ghost start = stack@;
    let ghost natives = caller.build_ins();
    let ghost none = Seq::<Answer>::empty();
    let ghost without = semantics::bind_args(
        call@,
        view_all(params@),
        function@,
        index as nat,
        caller@,
        old(scope)@,
        natives,
        depth as nat,
        none,
    );
    match call {
        FormulaNode::FunctionCall { name, args } => {
            assert(call@ == Node::FunctionCall { name: name@, args: view_all(args@) });
            if index < args.len() && index < params.len() {
                assert(view_all(args@)[index as int] == args@[index as int]@);
                assert(view_all(params@)[index as int] == params@[index as int]@);
                match &*params[index] {
                    FormulaNode::Variant(param) => {
                        let value = args[index].calc(caller, stack, depth);
                        let ghost middle = stack@;
                        let ghost first = choose|answers: Seq<Answer>|
                            follows(
                                #[trigger] semantics::eval(
                                    args@[index as int]@,
                                    caller@,
                                    natives,
                                    depth as nat,
                                    answers,
                                ),
                                value@,
                                start,
                                middle,
                            );
                        let ghost a = semantics::eval(
                            args@[index as int]@,
                            caller@,
                            natives,
                            depth as nat,
                            first,
                        );
                        let ghost here = semantics::bind_args(
                            call@,
                            view_all(params@),
                            function@,
                            index as nat,
                            caller@,
                            old(scope)@,
                            natives,
                            depth as nat,
                            first,
                        );
                        assert(a.rest =~= none);
                        let node = match value {
                            CalculateOption::Bool(b) => Rc::new(FormulaNode::Bool(b)),
                            CalculateOption::Num(x) => Rc::new(FormulaNode::Constant(x)),
                            CalculateOption::Func => match &*args[index] {
                                FormulaNode::Variant(passed) => match scope.get(passed.as_str()) {
                                    Some(node) => node,
                                    None => {
                                        let r = Some(message::unresolved_name_text(passed.as_str()));
                                        assert(binding_follows(
                                            here,
                                            fault_view(r),
                                            scope@,
                                            start,
                                            stack@,
                                        ));
                                        return r;
                                    },
                                },
                                _ => {
                                    let r = Some(message::function_argument_text(function));
                                    assert(binding_follows(
                                        here,
                                        fault_view(r),
                                        scope@,
                                        start,
                                        stack@,
                                    ));
                                    return r;
                                },
                            },
                            CalculateOption::Error(e) => {
                                let r = Some(message::argument_failed_text(function, e.as_str()));
                                assert(binding_follows(
                                    here,
                                    fault_view(r),
                                    scope@,
                                    start,
                                    stack@,
                                ));
                                return r;
                            },
                            CalculateOption::NoValue => {
                                let r = Some(message::argument_empty_text(function));
                                assert(binding_follows(
                                    here,
                                    fault_view(r),
                                    scope@,
                                    start,
                                    stack@,
                                ));
                                return r;
                            },
                        };
                        scope.insert(param.as_str(), node);
                        let ghost inner = scope@;
                        let r = bind_args(
                            call,
                            params,
                            function,
                            index + 1,
                            caller,
                            scope,
                            stack,
                            depth,
                        );
                        proof {
                            lemma_extends_twice(start, middle, stack@);
                            let second = choose|answers: Seq<Answer>|
                                binding_follows(
                                    #[trigger] semantics::bind_args(
                                        call@,
                                        view_all(params@),
                                        function@,
                                        (index + 1) as nat,
                                        caller@,
                                        inner,
                                        natives,
                                        depth as nat,
                                        answers,
                                    ),
                                    fault_view(r),
                                    scope@,
                                    middle,
                                    stack@,
                                );
                            let rest = semantics::bind_args(
                                call@,
                                view_all(params@),
                                function@,
                                (index + 1) as nat,
                                caller@,
                                inner,
                                natives,
                                depth as nat,
                                second,
                            );
                            lemma_then(
                                args@[index as int]@,
                                caller@,
                                natives,
                                depth as nat,
                                first,
                                second,
                            );
                            assert(stack@ =~= start + (a.trace + rest.trace));
                            assert(binding_follows(
                                semantics::bind_args(
                                    call@,
                                    view_all(params@),
                                    function@,
                                    index as nat,
                                    caller@,
                                    old(scope)@,
                                    natives,
                                    depth as nat,
                                    first + second,
                                ),
                                fault_view(r),
                                scope@,
                                start,
                                stack@,
                            ));
                        }
                        r
                    },
                    _ => {
                        let r = Some(message::bad_parameter_text(function));
                        assert(binding_follows(without, fault_view(r), scope@, start, stack@));
                        r
                    },
                }
            } else {
                assert(binding_follows(without, None, scope@, start, stack@));
                None
            }
        },
        _ => {
            assert(binding_follows(without, None, scope@, start, stack@));
            None
        },
    }
}

/// Runs the body of `function` from the expression at `index` on in
/// `scope`, `last` being the value of the expression before.
pub fn run_body<N: NativeFunction>(
    function: &FormulaNode,
    index: usize,
    scope: &mut Env<'_, N>,
    stack: &mut CallStack,
    depth: usize,
    last: CalculateOption,
) -> (r: CalculateOption)
    ensures
        extends(final(stack)@, old(stack)@),
        exists|answers: Seq<Answer>|
            follows(
                #[trigger] semantics::run_body(
                    function@,
                    index as nat,
                    old(scope)@,
                    old(scope).build_ins(),
                    depth as nat,
                    last@,
                    answers,
                ),
                r@,
                old(stack)@,
                final(stack)@,
            ),
    decreases depth, function, body_total(function) - index,
{
    let ghost start = stack@;
    let ghost natives = scope.build_ins();
    let ghost outer = scope@;
    let ghost none = Seq::<Answer>::empty();
    let ghost without = semantics::run_body(
        function@,
        index as nat,
        outer,
        natives,
        depth as nat,
        last@,
        none,
    );
    match function {
        FormulaNode::Function { name, args, expressions } => {
            assert(function@ == Node::Function {
                name: name@,
                args: view_all(args@),
                expressions: view_all(expressions@),
            });
            if index < expressions.len() {
                assert(view_all(expressions@)[index as int] == expressions@[index as int]@);
                let value = expressions[index].calc(scope, stack, depth);
                let ghost middle = stack@;
                let ghost first = choose|answers: Seq<Answer>|
                    follows(
                        #[trigger] semantics::eval(
                            expressions@[index as int]@,
                            outer,
                            natives,
                            depth as nat,
                            answers,
                        ),
                        value@,
                        start,
                        middle,
                    );
                let ghost o = semantics::eval(
                    expressions@[index as int]@,
                    outer,
                    natives,
                    depth as nat,
                    first,
                );
                assert(o.rest =~= none);
                match &*expressions[index] {
                    FormulaNode::Formula { name: bound, formula } => {
                        let node = match &value {
                            CalculateOption::Num(x) => Rc::new(FormulaNode::Constant(*x)),
                            CalculateOption::Bool(b) => Rc::new(FormulaNode::Bool(*b)),
                            _ => {
                                let r = fault(message::malformed_body_text());
                                proof {
                                    assert(middle =~= start + (o.trace + Seq::<
                                        Invocation,
                                    >::empty()));
                                    assert(follows(
                                        semantics::run_body(
                                            function@,
                                            index as nat,
                                            outer,
                                            natives,
                                            depth as nat,
                                            last@,
                                            first,
                                        ),
                                        r@,
                                        start,
                                        stack@,
                                    ));
                                }
                                return r;
                            },
                        };
                        scope.insert(bound.as_str(), node);
                    },
                    _ => {},
                }
                let ghost inner = scope@;
                let ghost kept = value@;
                let r = run_body(function, index + 1, scope, stack, depth, value);
                proof {
                    lemma_extends_twice(start, middle, stack@);
                    let second = choose|answers: Seq<Answer>|
                        follows(
                            #[trigger] semantics::run_body(
                                function@,
                                (index + 1) as nat,
                                inner,
                                natives,
                                depth as nat,
                                kept,
                                answers,
                            ),
                            r@,
                            middle,
                            stack@,
                        );
                    let rest = semantics::run_body(
                        function@,
                        (index + 1) as nat,
                        inner,
                        natives,
                        depth as nat,
                        kept,
                        second,
                    );
                    lemma_then(
                        expressions@[index as int]@,
                        outer,
                        natives,
                        depth as nat,
                        first,
                        second,
                    );
                    assert(stack@ =~= start + (o.trace + rest.trace));
                    assert(follows(
                        semantics::run_body(
                            function@,
                            index as nat,
                            outer,
                            natives,
                            depth as nat,
                            last@,
                            first + second,
                        ),
                        r@,
                        start,
                        stack@,
                    ));
                }
                r
            } else {
                assert(follows(without, last@, start, stack@));
                last
            }
        },
        _ => {
            assert(follows(without, last@, start, stack@));
            last
        },
    }
}

impl OperatorNode {
    /// The operator and its two operands; nothing for `!`, which has one.
    pub fn operands(&self) -> (r: Option<(Binary, &FormulaNode, &FormulaNode)>)
        ensures
            match r {
                Some((kind, left, right)) => semantics::operands(self@) == Some(
                    (kind, left@, right@),
                ) && decreases_to!(self => left) && decreases_to!(self => right),
                None => self is Not,
            },
    {
        match self {
            OperatorNode::Plus { left, right } => Some((Binary::Plus, left, right)),
            OperatorNode::Minus { left, right } => Some((Binary::Minus, left, right)),
            OperatorNode::Divide { left, right } => Some((Binary::Divide, left, right)),
            OperatorNode::Multiply { left, right } => Some((Binary::Multiply, left, right)),
            OperatorNode::Less { left, right } => Some((Binary::Less, left, right)),
            OperatorNode::LessEqual { left, right } => Some((Binary::LessEqual, left, right)),
            OperatorNode::Great { left, right } => Some((Binary::Great, left, right)),
            OperatorNode::GreatEqual { left, right } => Some((Binary::GreatEqual, left, right)),
            OperatorNode::Equal { left, right } => Some((Binary::Equal, left, right)),
            OperatorNode::Not(_) => None,
            OperatorNode::And { left, right } => Some((Binary::And, left, right)),
            OperatorNode::Or { left, right } => Some((Binary::Or, left, right)),
        }
    }

    /// Evaluates the operator: both operands, the left one first, then the
    /// operator on their values.
    pub fn calc<N: NativeFunction>(
        &self,
        env: &Env<'_, N>,
        stack: &mut CallStack,
        depth: usize,
    ) -> (r: CalculateOption)
        ensures
            extends(final(stack)@, old(stack)@),
            exists|answers: Seq<Answer>|
                follows(
                    #[trigger] semantics::eval_op(self@, env@, env.build_ins(), depth as nat, answers),
                    r@,
                    old(stack)@,
                    final(stack)@,
                ),
            agrees(
                semantics::eval_op(self@, env@, env.build_ins(), depth as nat, Seq::empty()),
                r@,
                old(stack)@,
                final(stack)@,
            ),
        decreases depth, self, 0nat,
    {
        let ghost start = stack@;
        let ghost natives = env.build_ins();
        let ghost mut used: Seq<Answer> = Seq::empty();
        let r = match self.operands() {
            Some((kind, left, right)) => {
                let l = left.calc(env, stack, depth);
                let ghost middle = stack@;
                let r = right.calc(env, stack, depth);
                let ghost lv = l@;
                let ghost rv = r@;
                let v = apply(kind, l, r);
                proof {
                    lemma_extends_twice(start, middle, stack@);
                    let first = choose|answers: Seq<Answer>|
                        follows(
                            #[trigger] semantics::eval(left@, env@, natives, depth as nat, answers),
                            lv,
                            start,
                            middle,
                        );
                    let second = choose|answers: Seq<Answer>|
                        follows(
                            #[trigger] semantics::eval(right@, env@, natives, depth as nat, answers),
                            rv,
                            middle,
                            stack@,
                        );
                    let lo = semantics::eval(left@, env@, natives, depth as nat, first);
                    let ro = semantics::eval(right@, env@, natives, depth as nat, second);
                    lemma_then(left@, env@, natives, depth as nat, first, second);
                    assert(stack@ =~= start + (lo.trace + ro.trace));
                    assert(follows(
                        semantics::eval_op(self@, env@, natives, depth as nat, first + second),
                        v@,
                        start,
                        stack@,
                    ));
                    used = first + second;
                }
                v
            },
            None => match self {
                OperatorNode::Not(inner) => {
                    let value = inner.calc(env, stack, depth);
                    let ghost iv = value@;
                    let v = negate(value);
                    proof {
                        used = choose|answers: Seq<Answer>|
                            follows(
                                #[trigger] semantics::eval(
                                    inner@,
                                    env@,
                                    natives,
                                    depth as nat,
                                    answers,
                                ),
                                iv,
                                start,
                                stack@,
                            );
                        assert(follows(
                            semantics::eval_op(self@, env@, natives, depth as nat, used),
                            v@,
                            start,
                            stack@,
                        ));
                    }
                    v
                },
                _ => CalculateOption::NoValue,
            },
        };
        proof {
            let none = Seq::<Answer>::empty();
            let o = semantics::eval_op(self@, env@, natives, depth as nat, none);
            if !o.short {
                laws::operator_leaves_unused_answers(self@, env@, natives, depth as nat, none, used);
                assert(none + used =~= used);
                assert(o.rest + used =~= used);
            }
        }
        r
    }
}

/// What can be evaluated in a chain of scopes.
pub trait FormulaCalc {
    /// Evaluates `self` in the scope `env`, recording every call at the end
    /// of `stack`.
    fn calc<N: NativeFunction>(
        &self,
        env: &Env<'_, N>,
        stack: &mut CallStack,
        depth: usize,
    ) -> CalculateOption;
}

impl FormulaCalc for FormulaNode {
    fn calc<N: NativeFunction>(
        &self,
        env: &Env<'_, N>,
        stack: &mut CallStack,
        depth: usize,
    ) -> (r: CalculateOption)
        ensures
            extends(final(stack)@, old(stack)@),
            exists|answers: Seq<Answer>|
                follows(
                    #[trigger] semantics::eval(self@, env@, env.build_ins(), depth as nat, answers),
                    r@,
                    old(stack)@,
                    final(stack)@,
                ),
            agrees(
                semantics::eval(self@, env@, env.build_ins(), depth as nat, Seq::empty()),
                r@,
                old(stack)@,
                final(stack)@,
            ),
    {
        FormulaNode::calc(self, env, stack, depth)
    }
}

impl FormulaCalc for OperatorNode {
    fn calc<N: NativeFunction>(
        &self,
        env: &Env<'_, N>,
        stack: &mut CallStack,
        depth: usize,
    ) -> (r: CalculateOption)
        ensures
            extends(final(stack)@, old(stack)@),
            exists|answers: Seq<Answer>|
                follows(
                    #[trigger] semantics::eval_op(self@, env@, env.build_ins(), depth as nat, answers),
                    r@,
                    old(stack)@,
                    final(stack)@,
                ),
            agrees(
                semantics::eval_op(self@, env@, env.build_ins(), depth as nat, Seq::empty()),
                r@,
                old(stack)@,
                final(stack)@,
            ),
    {
        OperatorNode::calc(self, env, stack, depth)
    }
}

} // verus!
