//! The tree that a formula is scanned into, and its mathematical model.

use vstd::prelude::*;
use std::rc::Rc;
use crate::calculator::{CalculateOption, CallStack};
use crate::env::Env;
use crate::semantics::{Bindings, Invocation, Value};

verus! {

/// A node of a scanned formula.
#[derive(Debug)]
pub enum FormulaNode {
    /// A name that stands for whatever it is bound to.
    Variant(String),
    /// A number, as the 64 bits of an IEEE 754 binary64 value.
    Constant(u64),
    /// A truth value.
    Bool(bool),
    /// An operator with its operands.
    Operator(Box<OperatorNode>),
    /// The call of a function with its arguments, not yet evaluated.
    FunctionCall { name: String, args: Vec<Rc<FormulaNode>> },
    /// The definition of a function: its parameters and the expressions of
    /// its body.
    Function { name: String, args: Vec<Rc<FormulaNode>>, expressions: Vec<Rc<FormulaNode>> },
    /// Stands for the native function registered under `func`.
    BuildInFunction { func: String },
    /// A named argument.
    Arg { name: String, value: Box<FormulaNode> },
    /// A formula under a name: `name := formula`.
    Formula { name: String, formula: Rc<FormulaNode> },
    /// Text that is no formula, with the reason.
    UnKnow(String),
    /// A formula in brackets.
    Quote(Box<FormulaNode>),
    /// Nothing: what an empty text scans to.
    Empty,
}

/// An operator with its operands.
#[derive(Debug)]
pub enum OperatorNode {
    Plus { left: Box<FormulaNode>, right: Box<FormulaNode> },
    Minus { left: Box<FormulaNode>, right: Box<FormulaNode> },
    Divide { left: Box<FormulaNode>, right: Box<FormulaNode> },
    Multiply { left: Box<FormulaNode>, right: Box<FormulaNode> },
    Less { left: Box<FormulaNode>, right: Box<FormulaNode> },
    LessEqual { left: Box<FormulaNode>, right: Box<FormulaNode> },
    Great { left: Box<FormulaNode>, right: Box<FormulaNode> },
    GreatEqual { left: Box<FormulaNode>, right: Box<FormulaNode> },
    Equal { left: Box<FormulaNode>, right: Box<FormulaNode> },
    Not(Box<FormulaNode>),
    And { left: Box<FormulaNode>, right: Box<FormulaNode> },
    Or { left: Box<FormulaNode>, right: Box<FormulaNode> },
}

/// The model of a `FormulaNode`: the same tree over sequences of characters.
pub enum Node {
    Variant(Seq<char>),
    Constant(u64),
    Bool(bool),
    Operator(Box<OpNode>),
    FunctionCall { name: Seq<char>, args: Seq<Node> },
    Function { name: Seq<char>, args: Seq<Node>, expressions: Seq<Node> },
    BuildInFunction { func: Seq<char> },
    Arg { name: Seq<char>, value: Box<Node> },
    Formula { name: Seq<char>, formula: Box<Node> },
    UnKnow(Seq<char>),
    Quote(Box<Node>),
    Empty,
}

/// The model of an `OperatorNode`.
pub enum OpNode {
    Plus { left: Box<Node>, right: Box<Node> },
    Minus { left: Box<Node>, right: Box<Node> },
    Divide { left: Box<Node>, right: Box<Node> },
    Multiply { left: Box<Node>, right: Box<Node> },
    Less { left: Box<Node>, right: Box<Node> },
    LessEqual { left: Box<Node>, right: Box<Node> },
    Great { left: Box<Node>, right: Box<Node> },
    GreatEqual { left: Box<Node>, right: Box<Node> },
    Equal { left: Box<Node>, right: Box<Node> },
    Not(Box<Node>),
    And { left: Box<Node>, right: Box<Node> },
    Or { left: Box<Node>, right: Box<Node> },
}

/// The models of a sequence of nodes, one by one.
pub open spec fn view_all(nodes: Seq<Rc<FormulaNode>>) -> Seq<Node>
    decreases nodes,
{
    Seq::new(
        nodes.len(),
        |i: int|
            if 0 <= i < nodes.len() {
                nodes[i].view()
            } else {
                Node::Empty
            },
    )
}

impl FormulaNode {
    pub open spec fn view(&self) -> Node
        decreases self,
    {
        match self {
            FormulaNode::Variant(name) => Node::Variant(name@),
            FormulaNode::Constant(bits) => Node::Constant(*bits),
            FormulaNode::Bool(b) => Node::Bool(*b),
            FormulaNode::Operator(op) => Node::Operator(Box::new(op.view())),
            FormulaNode::FunctionCall { name, args } => Node::FunctionCall {
                name: name@,
                args: view_all(args@),
            },
            FormulaNode::Function { name, args, expressions } => Node::Function {
                name: name@,
                args: view_all(args@),
                expressions: view_all(expressions@),
            },
            FormulaNode::BuildInFunction { func } => Node::BuildInFunction { func: func@ },
            FormulaNode::Arg { name, value } => Node::Arg {
                name: name@,
                value: Box::new(value.view()),
            },
            FormulaNode::Formula { name, formula } => Node::Formula {
                name: name@,
                formula: Box::new(formula.view()),
            },
            FormulaNode::UnKnow(reason) => Node::UnKnow(reason@),
            FormulaNode::Quote(inner) => Node::Quote(Box::new(inner.view())),
            FormulaNode::Empty => Node::Empty,
        }
    }
}

impl OperatorNode {
    pub open spec fn view(&self) -> OpNode
        decreases self,
    {
        match self {
            OperatorNode::Plus { left, right } => OpNode::Plus {
                left: Box::new(left.view()),
                right: Box::new(right.view()),
            },
            OperatorNode::Minus { left, right } => OpNode::Minus {
                left: Box::new(left.view()),
                right: Box::new(right.view()),
            },
            OperatorNode::Divide { left, right } => OpNode::Divide {
                left: Box::new(left.view()),
                right: Box::new(right.view()),
            },
            OperatorNode::Multiply { left, right } => OpNode::Multiply {
                left: Box::new(left.view()),
                right: Box::new(right.view()),
            },
            OperatorNode::Less { left, right } => OpNode::Less {
                left: Box::new(left.view()),
                right: Box::new(right.view()),
            },
            OperatorNode::LessEqual { left, right } => OpNode::LessEqual {
                left: Box::new(left.view()),
                right: Box::new(right.view()),
            },
            OperatorNode::Great { left, right } => OpNode::Great {
                left: Box::new(left.view()),
                right: Box::new(right.view()),
            },
            OperatorNode::GreatEqual { left, right } => OpNode::GreatEqual {
                left: Box::new(left.view()),
                right: Box::new(right.view()),
            },
            OperatorNode::Equal { left, right } => OpNode::Equal {
                left: Box::new(left.view()),
                right: Box::new(right.view()),
            },
            OperatorNode::Not(inner) => OpNode::Not(Box::new(inner.view())),
            OperatorNode::And { left, right } => OpNode::And {
                left: Box::new(left.view()),
                right: Box::new(right.view()),
            },
            OperatorNode::Or { left, right } => OpNode::Or {
                left: Box::new(left.view()),
                right: Box::new(right.view()),
            },
        }
    }
}

/// `Rc::clone`: a second pointer to the same node, so the node it leads to
/// is the one that `node` leads to.
#[verifier::external_body]
pub(crate) fn share(node: &Rc<FormulaNode>) -> (r: Rc<FormulaNode>)
    ensures
        r == *node,
{
    Rc::clone(node)
}

/// A sequence of pointers to the same nodes.
pub fn share_all(nodes: &Vec<Rc<FormulaNode>>) -> (r: Vec<Rc<FormulaNode>>)
    ensures
        r@ == nodes@,
{
    let mut r: Vec<Rc<FormulaNode>> = Vec::new();
    let mut i: usize = 0;
    while i < nodes.len()
        invariant
            0 <= i <= nodes.len(),
            r@ == nodes@.take(i as int),
        decreases nodes.len() - i,
    {
        r.push(share(&nodes[i]));
        i += 1;
    }
    r
}

/// What a native function is called with: the arguments as they were
/// written, the scope of the caller, and how many names and calls may still
/// be followed, one inside the other. A native function decides for itself
/// which arguments it evaluates, and when.
pub struct FuncContext<'a, N> {
    pub args: Vec<Rc<FormulaNode>>,
    pub env: &'a Env<'a, N>,
    pub depth: usize,
}

impl<'a, N> FuncContext<'a, N> {
    /// What a native function is called with in the scope `env`.
    pub fn new(args: &Vec<Rc<FormulaNode>>, env: &'a Env<'a, N>, depth: usize) -> (r: Self)
        ensures
            r.args@ == args@,
            r.env == env,
            r.depth == depth,
    {
        FuncContext { args: share_all(args), env, depth }
    }
}

/// A function of the host that formulas can call by a name. What it
/// returns is the value of the call; the calls that it records are added to
/// the trace behind the record of its own call.
pub trait NativeFunction: Sized {
    /// Whether the function, called with the arguments `args` as they were
    /// written, in the scope `env` of the caller, with the registered native
    /// functions `natives` and with `depth` names and calls left to follow,
    /// may hand back `value` and record `recorded`. Unless a function says
    /// more of itself, it may hand back anything.
    open spec fn gives(
        &self,
        args: Seq<Node>,
        env: Bindings,
        natives: Map<Seq<char>, Self>,
        depth: nat,
        value: Value,
        recorded: Seq<Invocation>,
    ) -> bool {
        true
    }

    /// Calls the function. `stack` is an empty trace: the function records
    /// there the calls that it makes.
    fn call(&self, context: &FuncContext<'_, Self>, stack: &mut CallStack) -> (r: CalculateOption)
        requires
            old(stack)@.len() == 0,
        ensures
            self.gives(
                view_all(context.args@),
                context.env@,
                context.env.build_ins(),
                context.depth as nat,
                r@,
                final(stack)@,
            ),
    ;
}

/// For a parser without native functions: the type that none is of.
pub struct NoNative {}

impl NativeFunction for NoNative {
    open spec fn gives(
        &self,
        args: Seq<Node>,
        env: Bindings,
        natives: Map<Seq<char>, Self>,
        depth: nat,
        value: Value,
        recorded: Seq<Invocation>,
    ) -> bool {
        value == Value::NoValue && recorded.len() == 0
    }

    fn call(&self, context: &FuncContext<'_, Self>, stack: &mut CallStack) -> (r: CalculateOption) {
        CalculateOption::NoValue
    }
}

} // verus!
