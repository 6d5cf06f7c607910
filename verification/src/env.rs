//! Scopes: what names stand for while a formula is evaluated.
//!
//! A scope binds names to nodes and points to the scope around it. A name is
//! looked up in the innermost scope first. Only the outermost scope holds
//! the registry of native functions.

use vstd::prelude::*;
use std::rc::Rc;
use std::time::{Duration, Instant};
use crate::calculator::{agrees, extends, follows, CalculateOption, CallStack};
use crate::formula::{share, FormulaNode, NativeFunction, Node};
use crate::semantics;
use crate::semantics::{Answer, Bindings, Value};

verus! {

/// What a scope keeps of a name: the node it is bound to, the value last
/// noted for it, and the values that `calc` found for it before.
pub struct EnvValue {
    pub node: Rc<FormulaNode>,
    pub value: CalculateOption,
    pub hist_value: Vec<CalculateOption>,
}

/// One name of a scope.
pub struct Binding {
    name: String,
    value: EnvValue,
}

/// One native function of the registry.
pub struct Registered<N> {
    name: String,
    func: N,
}

/// A scope.
pub struct Env<'a, N> {
    prev: Option<&'a Env<'a, N>>,
    env: Vec<Binding>,
    build_in_map: Option<Vec<Registered<N>>>,
}

pub closed spec fn binds(entries: Seq<Binding>, key: Seq<char>, i: int) -> bool {
    0 <= i < entries.len() && entries[i].name@ == key
}

pub closed spec fn own_bindings(entries: Seq<Binding>) -> Bindings {
    Map::new(
        |key: Seq<char>| exists|i: int| binds(entries, key, i),
        |key: Seq<char>| entries[choose|i: int| binds(entries, key, i)].value.node@,
    )
}

pub closed spec fn own_values(entries: Seq<Binding>) -> Map<Seq<char>, Value> {
    Map::new(
        |key: Seq<char>| exists|i: int| binds(entries, key, i),
        |key: Seq<char>| entries[choose|i: int| binds(entries, key, i)].value.value@,
    )
}

pub closed spec fn names_unique(entries: Seq<Binding>) -> bool {
    forall|i: int, j: int|
        0 <= i < j < entries.len() ==> #[trigger] entries[i].name@ != #[trigger] entries[j].name@
}

/// The registry that a sequence of registrations makes: each name with the
/// function that was registered under it last.
pub closed spec fn registered<N>(entries: Seq<Registered<N>>) -> Map<Seq<char>, N>
    decreases entries.len(),
{
    if entries.len() == 0 {
        Map::empty()
    } else {
        registered(entries.drop_last()).insert(entries.last().name@, entries.last().func)
    }
}

proof fn lemma_registered_at<N>(entries: Seq<Registered<N>>, key: Seq<char>, i: int)
    requires
        0 <= i < entries.len(),
        entries[i].name@ == key,
        forall|j: int| i < j < entries.len() ==> entries[j].name@ != key,
    ensures
        registered(entries).dom().contains(key),
        registered(entries)[key] == entries[i].func,
    decreases entries.len(),
{
    if i < entries.len() - 1 {
        lemma_registered_at(entries.drop_last(), key, i);
    }
}

proof fn lemma_unregistered<N>(entries: Seq<Registered<N>>, key: Seq<char>)
    requires
        forall|j: int| 0 <= j < entries.len() ==> entries[j].name@ != key,
    ensures
        !registered(entries).dom().contains(key),
    decreases entries.len(),
{
    if entries.len() > 0 {
        lemma_unregistered(entries.drop_last(), key);
    }
}

impl<'a, N> Env<'a, N> {
    /// No name stands twice in one scope.
    #[verifier::type_invariant]
    spec fn well_formed(self) -> bool {
        names_unique(self.env@)
    }

    /// The scope around this one.
    pub closed spec fn parent(&self) -> Option<&'a Env<'a, N>> {
        self.prev
    }

    /// What this scope itself binds.
    pub closed spec fn bindings(&self) -> Bindings {
        own_bindings(self.env@)
    }

    /// The value last noted for each name of this scope.
    pub closed spec fn values(&self) -> Map<Seq<char>, Value> {
        own_values(self.env@)
    }

    /// The native functions registered in this scope, by their names;
    /// nothing where the scope has no registry.
    pub closed spec fn registry(&self) -> Option<Map<Seq<char>, N>> {
        match self.build_in_map {
            Some(entries) => Some(registered(entries@)),
            None => None,
        }
    }

    /// What the chain of scopes binds: each name with the node of the
    /// innermost scope that holds it.
    pub open spec fn view(&self) -> Bindings
        decreases self,
    {
        match self.parent() {
            Some(outer) => outer.view().union_prefer_right(self.bindings()),
            None => self.bindings(),
        }
    }

    /// The native functions that can be reached from this scope: those of
    /// the nearest scope with a registry.
    pub open spec fn build_ins(&self) -> Map<Seq<char>, N>
        decreases self,
    {
        match self.registry() {
            Some(functions) => functions,
            None => match self.parent() {
                Some(outer) => outer.build_ins(),
                None => Map::empty(),
            },
        }
    }

    /// The names of the native functions that can be reached from this
    /// scope.
    pub open spec fn natives(&self) -> Set<Seq<char>> {
        self.build_ins().dom()
    }
}

fn same_text(a: &String, b: &str) -> (r: bool)
    ensures
        r == (a@ == b@),
{
    let other = String::from_str(b);
    *a == other
}

fn find(entries: &Vec<Binding>, key: &str) -> (r: Option<usize>)
    ensures
        match r {
            Some(i) => binds(entries@, key@, i as int),
            None => forall|i: int| !binds(entries@, key@, i),
        },
{
    let mut i: usize = 0;
    while i < entries.len()
        invariant
            0 <= i <= entries.len(),
            forall|j: int| 0 <= j < i ==> !binds(entries@, key@, j),
        decreases entries.len() - i,
    {
        if same_text(&entries[i].name, key) {
            return Some(i);
        }
        i += 1;
    }
    None
}

proof fn lemma_bound_at(entries: Seq<Binding>, key: Seq<char>, i: int)
    requires
        names_unique(entries),
        binds(entries, key, i),
    ensures
        own_bindings(entries).dom().contains(key),
        own_bindings(entries)[key] == entries[i].value.node@,
        own_values(entries).dom().contains(key),
        own_values(entries)[key] == entries[i].value.value@,
{
    let j = choose|j: int| binds(entries, key, j);
    if i < j {
        assert(entries[i].name@ != entries[j].name@);
    }
    if j < i {
        assert(entries[j].name@ != entries[i].name@);
    }
}

proof fn lemma_unbound(entries: Seq<Binding>, key: Seq<char>)
    requires
        forall|i: int| !binds(entries, key, i),
    ensures
        !own_bindings(entries).dom().contains(key),
        !own_values(entries).dom().contains(key),
{
}

impl<'a, N> Env<'a, N> {
    /// The outermost scope: no names, an empty registry.
    pub fn new() -> (e: Env<'static, N>)
        ensures
            e.parent() is None,
            e.bindings() == Map::<Seq<char>, Node>::empty(),
            e.registry() == Some(Map::<Seq<char>, N>::empty()),
            e@ == Map::<Seq<char>, Node>::empty(),
            e.natives() == Set::<Seq<char>>::empty(),
    {
        let e = Env { prev: None, env: Vec::new(), build_in_map: Some(Vec::new()) };
        assert(e.bindings() =~= Map::<Seq<char>, Node>::empty());
        assert(e.natives() =~= Set::<Seq<char>>::empty());
        e
    }

    /// A scope inside `env`: no names of its own, no registry.
    pub fn extend(env: &'a Env<'a, N>) -> (e: Env<'a, N>)
        ensures
            e.parent() == Some(env),
            e.bindings() == Map::<Seq<char>, Node>::empty(),
            e.registry() is None,
            e@ == env@,
            e.build_ins() == env.build_ins(),
            e.natives() == env.natives(),
    {
        let e = Env { prev: Some(env), env: Vec::new(), build_in_map: None };
        assert(e.bindings() =~= Map::<Seq<char>, Node>::empty());
        assert(e@ =~= env@);
        e
    }

    /// The node that `key` stands for: that of the innermost scope that
    /// binds it, nothing where no scope does.
    pub fn get(&self, key: &str) -> (r: Option<Rc<FormulaNode>>)
        ensures
            match r {
                Some(node) => self@.dom().contains(key@) && node@ == self@[key@],
                None => !self@.dom().contains(key@),
            },
        decreases self,
    {
        proof {
            use_type_invariant(self);
        }
        match find(&self.env, key) {
            Some(i) => {
                proof {
                    lemma_bound_at(self.env@, key@, i as int);
                }
                Some(share(&self.env[i].value.node))
            },
            None => {
                proof {
                    lemma_unbound(self.env@, key@);
                }
                match self.prev {
                    Some(outer) => outer.get(key),
                    None => None,
                }
            },
        }
    }
}

fn find_registered<N>(entries: &Vec<Registered<N>>, key: &str) -> (r: Option<usize>)
    ensures
        match r {
            Some(i) => i < entries.len() && registered(entries@).dom().contains(key@)
                && registered(entries@)[key@] == entries@[i as int].func,
            None => !registered(entries@).dom().contains(key@),
        },
{
    let mut i: usize = entries.len();
    while i > 0
        invariant
            0 <= i <= entries.len(),
            forall|j: int| i <= j < entries.len() ==> entries@[j].name@ != key@,
        decreases i,
    {
        i -= 1;
        if same_text(&entries[i].name, key) {
            proof {
                lemma_registered_at(entries@, key@, i as int);
            }
            return Some(i);
        }
    }
    proof {
        lemma_unregistered(entries@, key@);
    }
    None
}

/// Puts `binding` into `entries`, in place of the entry of the same name if
/// there is one, and hands that entry back.
fn put(entries: Vec<Binding>, binding: Binding) -> (r: (Vec<Binding>, Option<Binding>))
    requires
        names_unique(entries@),
    ensures
        names_unique(r.0@),
        own_bindings(r.0@) == own_bindings(entries@).insert(binding.name@, binding.value.node@),
        own_values(r.0@) == own_values(entries@).insert(binding.name@, binding.value.value@),
        match r.1 {
            Some(prior) => own_bindings(entries@).dom().contains(binding.name@)
                && prior.value.node@ == own_bindings(entries@)[binding.name@]
                && prior.value.value@ == own_values(entries@)[binding.name@],
            None => !own_bindings(entries@).dom().contains(binding.name@),
        },
{
    let ghost before = entries@;
    let ghost key = binding.name@;
    let ghost node = binding.value.node@;
    let ghost value = binding.value.value@;
    let mut entries = entries;
    let found = find(&entries, binding.name.as_str());
    let prior = match found {
        Some(i) => {
            proof {
                lemma_bound_at(before, key, i as int);
            }
            Some(entries.remove(i))
        },
        None => {
            proof {
                lemma_unbound(before, key);
            }
            None
        },
    };
    let ghost middle = entries@;
    entries.push(binding);
    proof {
        let after = entries@;
        assert forall|j: int| !binds(middle, key, j) by {
            if binds(middle, key, j) {
                match found {
                    Some(i) => {
                        if j < i {
                            assert(before[j].name@ != before[i as int].name@);
                        } else {
                            assert(before[i as int].name@ != before[j + 1].name@);
                        }
                    },
                    None => {
                        assert(binds(before, key, j));
                    },
                }
            }
        }
        assert(names_unique(after)) by {
            assert forall|i: int, j: int| 0 <= i < j < after.len() implies #[trigger] after[i].name@
                != #[trigger] after[j].name@ by {
                if j == after.len() - 1 {
                    assert(!binds(middle, key, i));
                } else {
                    match found {
                        Some(k) => {
                            let i0 = if i < k {
                                i
                            } else {
                                i + 1
                            };
                            let j0 = if j < k {
                                j
                            } else {
                                j + 1
                            };
                            assert(before[i0].name@ != before[j0].name@);
                        },
                        None => {},
                    }
                }
            }
        }
        lemma_bound_at(after, key, after.len() - 1);
        assert forall|k: Seq<char>| k != key && #[trigger] own_bindings(before).dom().contains(
            k,
        ) implies own_bindings(after).dom().contains(k) && own_bindings(after)[k] == own_bindings(
            before,
        )[k] && own_values(after)[k] == own_values(before)[k] by {
            let j0 = choose|j: int| binds(before, k, j);
            let j = match found {
                Some(i) => if j0 < i {
                    j0
                } else {
                    j0 - 1
                },
                None => j0,
            };
            assert(binds(after, k, j));
            lemma_bound_at(before, k, j0);
            lemma_bound_at(after, k, j);
        }
        assert forall|k: Seq<char>| k != key && #[trigger] own_bindings(after).dom().contains(
            k,
        ) implies own_bindings(before).dom().contains(k) by {
            let j = choose|j: int| binds(after, k, j);
            let j0 = match found {
                Some(i) => if j < i {
                    j
                } else {
                    j + 1
                },
                None => j,
            };
            assert(binds(before, k, j0));
        }
        assert(own_bindings(after).dom() =~= own_bindings(before).insert(key, node).dom());
        assert(own_values(after).dom() =~= own_bindings(after).dom());
        assert(own_values(before).dom() =~= own_bindings(before).dom());
        assert(own_bindings(after) =~= own_bindings(before).insert(key, node));
        assert(own_values(after) =~= own_values(before).insert(key, value));
    }
    (entries, prior)
}

impl<'a, N> Env<'a, N> {
    /// Binds `key` to `value` in this scope alone, in place of what this
    /// scope bound it to before, and hands back what that was.
    pub fn set(&mut self, key: &str, value: Rc<FormulaNode>) -> (r: Option<EnvValue>)
        ensures
            final(self).bindings() == old(self).bindings().insert(key@, value@),
            final(self).values() == old(self).values().insert(key@, Value::NoValue),
            final(self).parent() == old(self).parent(),
            final(self).registry() == old(self).registry(),
            final(self)@ == old(self)@.insert(key@, value@),
            final(self).build_ins() == old(self).build_ins(),
            final(self).natives() == old(self).natives(),
            match r {
                Some(prior) => old(self).bindings().dom().contains(key@)
                    && prior.node@ == old(self).bindings()[key@],
                None => !old(self).bindings().dom().contains(key@),
            },
    {
        proof {
            use_type_invariant(&*self);
        }
        let mut entries: Vec<Binding> = Vec::new();
        std::mem::swap(&mut entries, &mut self.env);
        let binding = Binding {
            name: String::from_str(key),
            value: EnvValue { node: value, value: CalculateOption::NoValue, hist_value: Vec::new() },
        };
        let (entries, prior) = put(entries, binding);
        self.env = entries;
        assert(self@ =~= old(self)@.insert(key@, value@));
        match prior {
            Some(binding) => Some(binding.value),
            None => None,
        }
    }

    /// Notes `value` as the value of `key`, where this scope binds `key`,
    /// and hands back the value noted before; hands back no value where it
    /// does not.
    pub fn set_node_value(&mut self, key: &str, value: CalculateOption) -> (r: CalculateOption)
        ensures
            final(self).bindings() == old(self).bindings(),
            final(self).parent() == old(self).parent(),
            final(self).registry() == old(self).registry(),
            final(self)@ == old(self)@,
            final(self).build_ins() == old(self).build_ins(),
            final(self).natives() == old(self).natives(),
            old(self).bindings().dom().contains(key@) ==> r@ == old(self).values()[key@]
                && final(self).values() == old(self).values().insert(key@, value@),
            !old(self).bindings().dom().contains(key@) ==> r@ == Value::NoValue
                && final(self).values() == old(self).values(),
    {
        proof {
            use_type_invariant(&*self);
        }
        let mut entries: Vec<Binding> = Vec::new();
        std::mem::swap(&mut entries, &mut self.env);
        let ghost before = entries@;
        let r = match find(&entries, key) {
            Some(i) => {
                proof {
                    lemma_bound_at(before, key@, i as int);
                }
                let binding = Binding {
                    name: String::from_str(key),
                    value: EnvValue {
                        node: share(&entries[i].value.node),
                        value,
                        hist_value: Vec::new(),
                    },
                };
                let (updated, prior) = put(entries, binding);
                entries = updated;
                assert(own_bindings(entries@) =~= own_bindings(before));
                match prior {
                    Some(binding) => binding.value.value,
                    None => CalculateOption::NoValue,
                }
            },
            None => {
                proof {
                    lemma_unbound(before, key@);
                }
                CalculateOption::NoValue
            },
        };
        self.env = entries;
        r
    }

    /// The same as `set`.
    pub fn insert(&mut self, key: &str, value: Rc<FormulaNode>) -> (r: Option<EnvValue>)
        ensures
            final(self).bindings() == old(self).bindings().insert(key@, value@),
            final(self).values() == old(self).values().insert(key@, Value::NoValue),
            final(self).parent() == old(self).parent(),
            final(self).registry() == old(self).registry(),
            final(self)@ == old(self)@.insert(key@, value@),
            final(self).build_ins() == old(self).build_ins(),
            final(self).natives() == old(self).natives(),
            match r {
                Some(prior) => old(self).bindings().dom().contains(key@)
                    && prior.node@ == old(self).bindings()[key@],
                None => !old(self).bindings().dom().contains(key@),
            },
    {
        self.set(key, value)
    }

    /// The native function registered under `func_key` in the nearest scope
    /// that has a registry.
    pub fn get_build_in(&self, func_key: &str) -> (r: Option<&N>)
        ensures
            match r {
                Some(f) => self.build_ins().dom().contains(func_key@) && *f == self.build_ins()[func_key@],
                None => !self.build_ins().dom().contains(func_key@),
            },
        decreases self,
    {
        match &self.build_in_map {
            Some(entries) => match find_registered(entries, func_key) {
                Some(i) => Some(&entries[i].func),
                None => None,
            },
            None => match self.prev {
                Some(outer) => outer.get_build_in(func_key),
                None => None,
            },
        }
    }
}

impl<'a, N> Env<'a, N> {
    /// Registers the native function `f` under `func_key`, in place of the
    /// one registered under that name before, and binds the name to the node
    /// that stands for it, so that it is found as any other name is. Does
    /// nothing where this scope has no registry.
    pub fn set_build_in(&mut self, func_key: &str, f: N)
        ensures
            final(self).parent() == old(self).parent(),
            match old(self).registry() {
                Some(functions) => final(self).registry() == Some(functions.insert(func_key@, f))
                    && final(self).bindings() == old(self).bindings().insert(
                    func_key@,
                    Node::BuildInFunction { func: func_key@ },
                ) && final(self)@ == old(self)@.insert(
                    func_key@,
                    Node::BuildInFunction { func: func_key@ },
                ) && final(self).build_ins() == old(self).build_ins().insert(func_key@, f)
                    && final(self).natives() == old(self).natives().insert(func_key@),
                None => final(self).registry() is None && final(self).bindings() == old(
                    self,
                ).bindings() && final(self)@ == old(self)@ && final(self).build_ins() == old(
                    self,
                ).build_ins() && final(self).natives() == old(self).natives(),
            },
    {
        proof {
            use_type_invariant(&*self);
        }
        let mut map: Option<Vec<Registered<N>>> = None;
        std::mem::swap(&mut map, &mut self.build_in_map);
        match map {
            Some(entries) => {
                let ghost before = entries@;
                let mut entries = entries;
                entries.push(Registered { name: String::from_str(func_key), func: f });
                proof {
                    assert(entries@.drop_last() =~= before);
                    assert(old(self).natives().insert(func_key@) =~= registered(entries@).dom());
                }
                self.build_in_map = Some(entries);
                let node = Rc::new(FormulaNode::BuildInFunction { func: String::from_str(func_key) });
                self.set(func_key, node);
            },
            None => {
                self.build_in_map = None;
            },
        }
    }
}

impl EnvValue {
    /// Evaluates the node and keeps the value among those found before.
    pub fn calc<N: NativeFunction>(
        &mut self,
        env: &Env<'_, N>,
        stack: &mut CallStack,
        depth: usize,
    ) -> (r: CalculateOption)
        ensures
            extends(final(stack)@, old(stack)@),
            exists|answers: Seq<Answer>|
                follows(
                    #[trigger] semantics::eval(
                        old(self).node@,
                        env@,
                        env.build_ins(),
                        depth as nat,
                        answers,
                    ),
                    r@,
                    old(stack)@,
                    final(stack)@,
                ),
            agrees(
                semantics::eval(old(self).node@, env@, env.build_ins(), depth as nat, Seq::empty()),
                r@,
                old(stack)@,
                final(stack)@,
            ),
            final(self).node == old(self).node,
            final(self).hist_value@.len() == old(self).hist_value@.len() + 1,
            final(self).hist_value@.last()@ == r@,
    {
        let value = self.node.calc(env, stack, depth);
        self.hist_value.push(value.duplicate());
        value
    }
}

/// A value that may have to wait: nothing, or a value with the delay after
/// which it counts.
pub enum EnvValueOption {
    Value { value: CalculateOption, delay: Option<DelayInfo> },
    Empty,
}

/// `std::time::Instant`, a moment of the clock. Nothing of it is looked
/// into here.
#[verifier::external_type_specification]
#[verifier::external_body]
pub struct ExInstant(Instant);

/// A delay that runs from the moment it was made. Once it is over it stays
/// over.
pub struct DelayInfo {
    point: Instant,
    delay: Duration,
    delayed: bool,
}

/// `Instant::now`: the present moment. Nothing is claimed of it.
#[verifier::external_body]
fn now() -> Instant {
    Instant::now()
}

/// `Instant::duration_since`: the time from `earlier` to `later`, zero where
/// `earlier` is the later one. Nothing is claimed of it.
#[verifier::external_body]
fn time_between(later: &Instant, earlier: &Instant) -> Duration {
    later.duration_since(*earlier)
}

/// `PartialOrd::gt` of `Duration`: whether `a` is longer than `b`. Nothing is
/// claimed of it.
#[verifier::external_body]
fn longer(a: &Duration, b: &Duration) -> bool {
    a > b
}

impl DelayInfo {
    /// Whether the delay was found to be over.
    pub closed spec fn is_delayed(&self) -> bool {
        self.delayed
    }

    /// How long the delay is.
    pub closed spec fn length(&self) -> Duration {
        self.delay
    }

    /// A delay of `delay` that runs from now on and is not over yet.
    pub fn new(delay: Duration) -> (r: DelayInfo)
        ensures
            !r.is_delayed(),
            r.length() == delay,
    {
        DelayInfo { point: now(), delayed: false, delay }
    }

    /// Takes note of whether the delay has run out: it is over if it was
    /// over before or has run out, and that is the answer.
    pub fn latch(&mut self, run_out: bool) -> (r: bool)
        ensures
            r == (old(self).is_delayed() || run_out),
            final(self).is_delayed() == r,
            final(self).length() == old(self).length(),
    {
        if run_out {
            self.delayed = true;
        }
        self.delayed
    }

    /// Whether the delay is over. A delay that was over stays over, whatever
    /// the clock says; one that was not is over once more time than the
    /// delay has passed since it was made.
    pub fn check_delay(&mut self) -> (r: bool)
        ensures
            old(self).is_delayed() ==> r,
            final(self).is_delayed() == r,
            final(self).length() == old(self).length(),
    {
        if self.delayed {
            true
        } else {
            let present = now();
            let waited = time_between(&present, &self.point);
            let run_out = longer(&waited, &self.delay);
            self.latch(run_out)
        }
    }
}

} // verus!
