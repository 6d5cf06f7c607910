//! The parser: scans formulas, keeps what they name, and evaluates them.

use vstd::prelude::*;
use std::rc::Rc;
use crate::calculator::{agrees, follows, trace_view, CalculateResult, CallStack};
use crate::env::Env;
use crate::formula::{share, FormulaNode, NativeFunction, Node};
use crate::grammar;
use crate::laws::trace_counts_calls;
use crate::message;
use crate::scanner;
use crate::semantics;
use crate::semantics::{Answer, Bindings, Invocation};

verus! {

/// How many names and calls an evaluation follows, one inside the other,
/// unless the parser is told otherwise.
pub const DEFAULT_DEPTH: usize = 200;

/// The bindings after the statement `node`: the definition of a function and
/// a named formula are bound under their names, in place of what the name
/// stood for before.
pub open spec fn register(node: Node, env: Bindings) -> Bindings {
    match node {
        Node::Function { name, .. } => env.insert(name, node),
        Node::Formula { name, .. } => env.insert(name, node),
        _ => env,
    }
}

/// The bindings after the statements of `s` from `pos` on. A statement that
/// is no formula ends the scan and binds nothing.
pub open spec fn bound_from(s: Seq<char>, pos: int, env: Bindings) -> Bindings
    decreases s.len() - pos,
{
    if !(0 <= pos < s.len()) {
        env
    } else {
        let (node, next) = grammar::scan_node(s, pos, false);
        if node is UnKnow {
            env
        } else if next <= pos || next > s.len() {
            register(node, env)
        } else {
            bound_from(s, next, register(node, env))
        }
    }
}

/// The bindings after the text `s` was parsed.
pub open spec fn bound_by(s: Seq<char>, env: Bindings) -> Bindings {
    bound_from(s, grammar::after_space(s, 0), env)
}

/// A parser with its outermost scope: what was parsed under a name can be
/// used by name in what is parsed later.
pub struct Parser<N: 'static> {
    env: Env<'static, N>,
    depth: usize,
}

impl<N: 'static> Parser<N> {
    /// The outermost scope is one: it has a registry and no scope around it.
    #[verifier::type_invariant]
    spec fn well_formed(self) -> bool {
        self.env.registry() is Some && self.env.parent() is None
    }
}

impl<N: NativeFunction + 'static> Parser<N> {
    /// What the names parsed so far stand for.
    pub closed spec fn bindings(&self) -> Bindings {
        self.env@
    }

    /// The registered native functions, by their names.
    pub closed spec fn build_ins(&self) -> Map<Seq<char>, N> {
        self.env.build_ins()
    }

    /// The names of the registered native functions.
    pub open spec fn natives(&self) -> Set<Seq<char>> {
        self.build_ins().dom()
    }

    /// How many names and calls an evaluation follows, one inside the other.
    pub closed spec fn max_depth(&self) -> nat {
        self.depth as nat
    }

    /// A parser that knows no names and no native functions.
    pub fn new() -> (r: Self)
        ensures
            r.bindings() == Map::<Seq<char>, Node>::empty(),
            r.build_ins() == Map::<Seq<char>, N>::empty(),
            r.max_depth() == DEFAULT_DEPTH,
    {
        Parser { env: Env::new(), depth: DEFAULT_DEPTH }
    }

    /// Sets how many names and calls an evaluation follows, one inside the
    /// other.
    pub fn set_max_depth(&mut self, depth: usize)
        ensures
            final(self).max_depth() == depth,
            final(self).bindings() == old(self).bindings(),
            final(self).build_ins() == old(self).build_ins(),
    {
        proof {
            use_type_invariant(&*self);
        }
        self.depth = depth;
    }

    /// Registers the native function `f` under `fun_name`: formulas can call
    /// it by that name from now on.
    pub fn reg_build_in(&mut self, fun_name: &str, f: N)
        ensures
            final(self).build_ins() == old(self).build_ins().insert(fun_name@, f),
            final(self).bindings() == old(self).bindings().insert(
                fun_name@,
                Node::BuildInFunction { func: fun_name@ },
            ),
            final(self).max_depth() == old(self).max_depth(),
    {
        proof {
            use_type_invariant(&*self);
        }
        let mut env: Env<'static, N> = Env::new();
        std::mem::swap(&mut env, &mut self.env);
        env.set_build_in(fun_name, f);
        self.env = env;
    }

    /// Parses `formula` and hands back the node of its last statement, or
    /// the first statement that is no formula. Every function and every
    /// named formula among the statements is bound under its name.
    pub fn parse(&mut self, formula: String) -> (r: Rc<FormulaNode>)
        ensures
            r@ == grammar::parse_formula(formula@),
            final(self).bindings() == bound_by(formula@, old(self).bindings()),
            final(self).build_ins() == old(self).build_ins(),
            final(self).max_depth() == old(self).max_depth(),
    {
        proof {
            use_type_invariant(&*self);
        }
        let mut env: Env<'static, N> = Env::new();
        std::mem::swap(&mut env, &mut self.env);
        let chars = message::chars_of(formula.as_str());
        let mut pos = scanner::skip_space(&chars, 0);
        let mut last = Rc::new(FormulaNode::Empty);
        let mut done = false;
        while pos < chars.len() && !done
            invariant
                pos <= chars.len(),
                chars@ == formula@,
                env.registry() is Some,
                env.parent() is None,
                env.build_ins() == old(self).env.build_ins(),
                !done ==> grammar::parse_from(chars@, pos as int, last@) == grammar::parse_formula(
                    chars@,
                ),
                !done ==> bound_from(chars@, pos as int, env@) == bound_by(
                    chars@,
                    old(self).env@,
                ),
                done ==> last@ == grammar::parse_formula(chars@) && env@ == bound_by(
                    chars@,
                    old(self).env@,
                ),
            decreases chars.len() - pos + (if done { 0int } else { 1int }),
        {
            let (node, next) = scanner::scan_node(&chars, pos, false);
            let node = Rc::new(node);
            match &*node {
                FormulaNode::Function { name, .. } => {
                    env.insert(name.as_str(), share(&node));
                },
                FormulaNode::Formula { name, .. } => {
                    env.insert(name.as_str(), share(&node));
                },
                FormulaNode::UnKnow(_) => {
                    done = true;
                },
                _ => {},
            }
            last = node;
            if !done {
                proof {
                    grammar::scan_stays_in_text(chars@, pos as int, false);
                }
                pos = next;
            }
        }
        self.env = env;
        last
    }

    /// Parses `formula` as `parse` does and evaluates the node that comes of
    /// it, in a scope of its own inside the outermost one. Hands back the
    /// value and the records of the calls that were made, in their order.
    pub fn calculate(&mut self, formula: String) -> (r: CalculateResult)
        ensures
            final(self).bindings() == bound_by(formula@, old(self).bindings()),
            final(self).build_ins() == old(self).build_ins(),
            final(self).max_depth() == old(self).max_depth(),
            exists|answers: Seq<Answer>|
                {
                    let o = #[trigger] semantics::eval(
                        grammar::parse_formula(formula@),
                        final(self).bindings(),
                        final(self).build_ins(),
                        final(self).max_depth(),
                        answers,
                    );
                    follows(o, r.value@, Seq::<Invocation>::empty(), trace_view(r.more@))
                        && r.more@.len() == o.calls
                },
            agrees(
                semantics::eval(
                    grammar::parse_formula(formula@),
                    final(self).bindings(),
                    final(self).build_ins(),
                    final(self).max_depth(),
                    Seq::empty(),
                ),
                r.value@,
                Seq::<Invocation>::empty(),
                trace_view(r.more@),
            ),
    {
        let node = self.parse(formula);
        let mut stack = CallStack::new();
        let scope = Env::extend(&self.env);
        let value = node.calc(&scope, &mut stack, self.depth);
        let more = stack.call_stack();
        proof {
            let used = choose|answers: Seq<Answer>|
                follows(
                    #[trigger] semantics::eval(
                        node@,
                        scope@,
                        scope.build_ins(),
                        self.depth as nat,
                        answers,
                    ),
                    value@,
                    Seq::<Invocation>::empty(),
                    stack@,
                );
            trace_counts_calls(node@, scope@, scope.build_ins(), self.depth as nat, used);
            let o = semantics::eval(node@, scope@, scope.build_ins(), self.depth as nat, used);
            assert(trace_view(more@).len() == more@.len());
            assert(stack@.len() == o.trace.len());
        }
        CalculateResult { value, more }
    }
}

} // verus!
