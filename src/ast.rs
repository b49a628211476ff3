//! Syntax tree of the language: effects, capabilities, types, expressions,
//! statements and modules.
use vstd::prelude::*;

verus! {

/// Effects that a capability can declare, ordered from the weakest
/// (`Pure`) to the most permissive (`Net`).
#[derive(Debug, Clone, Copy, PartialEq, Eq, Structural, Hash, Ord)]
pub enum Effect {
    Pure,
    Alloc,
    Io,
    Net,
}

impl Effect {
    /// Position of the effect in the chain `Pure < Alloc < Io < Net`.
    pub open spec fn rank(self) -> nat {
        match self {
            Effect::Pure => 0,
            Effect::Alloc => 1,
            Effect::Io => 2,
            Effect::Net => 3,
        }
    }

    /// `self` is at most as permissive as `other`.
    pub open spec fn at_most(self, other: Effect) -> bool {
        self.rank() <= other.rank()
    }

    /// The more permissive of two effects.
    pub open spec fn spec_join(self, other: Effect) -> Effect {
        if self.rank() >= other.rank() { self } else { other }
    }

    /// The less permissive of two effects.
    pub open spec fn spec_meet(self, other: Effect) -> Effect {
        if self.rank() <= other.rank() { self } else { other }
    }

    fn level(&self) -> (r: u8)
        ensures
            r as nat == self.rank(),
    {
        match self {
            Effect::Pure => 0,
            Effect::Alloc => 1,
            Effect::Io => 2,
            Effect::Net => 3,
        }
    }

    /// Whether `self` is subsumed by `other`, i.e. `self <= other` in the chain.
    pub fn subsumes(&self, other: &Effect) -> (r: bool)
        ensures
            r == self.at_most(*other),
    {
        self <= other
    }

    /// Least upper bound of two effects.
    pub fn join(&self, other: &Effect) -> (r: Effect)
        ensures
            r == self.spec_join(*other),
    {
        if self.level() >= other.level() {
            *self
        } else {
            *other
        }
    }

    /// Greatest lower bound of two effects.
    pub fn meet(&self, other: &Effect) -> (r: Effect)
        ensures
            r == self.spec_meet(*other),
    {
        if self.level() <= other.level() {
            *self
        } else {
            *other
        }
    }
}

impl PartialOrd for Effect {
    fn partial_cmp(&self, other: &Effect) -> (r: Option<core::cmp::Ordering>) {
        let a = self.level();
        let b = other.level();
        if a < b {
            Some(core::cmp::Ordering::Less)
        } else if a == b {
            Some(core::cmp::Ordering::Equal)
        } else {
            Some(core::cmp::Ordering::Greater)
        }
    }
}

impl vstd::std_specs::cmp::PartialOrdSpecImpl for Effect {
    open spec fn obeys_partial_cmp_spec() -> bool {
        true
    }

    open spec fn partial_cmp_spec(&self, other: &Effect) -> Option<core::cmp::Ordering> {
        if self.rank() < other.rank() {
            Some(core::cmp::Ordering::Less)
        } else if self.rank() == other.rank() {
            Some(core::cmp::Ordering::Equal)
        } else {
            Some(core::cmp::Ordering::Greater)
        }
    }
}

/// Resource limits of a capability. An absent field puts no constraint on
/// that axis.
#[derive(Debug, Clone, Copy)]
pub struct ResourceBudget {
    pub tokens: Option<u32>,
    pub latency_ms: Option<u32>,
    pub energy_mj: Option<u32>,
}

impl ResourceBudget {
    /// A budget with no constraint on any axis.
    pub open spec fn unconstrained() -> ResourceBudget {
        ResourceBudget { tokens: None, latency_ms: None, energy_mj: None }
    }
}

/// Capability annotation `!{effects, resource budgets}`.
#[derive(Debug, Clone)]
pub struct Capability {
    pub effects: Vec<Effect>,
    pub budgets: ResourceBudget,
}

/// Mathematical value of a capability.
pub struct CapabilityView {
    pub effects: Seq<Effect>,
    pub budgets: ResourceBudget,
}

impl View for Capability {
    type V = CapabilityView;

    open spec fn view(&self) -> CapabilityView {
        CapabilityView { effects: self.effects@, budgets: self.budgets }
    }
}

/// Types that annotations may name.
#[derive(Debug)]
pub enum Type {
    Int,
    Text,
    Bool,
    Array(Box<Type>),
    Function { params: Vec<Type>, return_type: Box<Type>, capability: Option<Capability> },
    Custom(String),
}

/// Expressions.
#[derive(Debug)]
pub enum Expr {
    Ident(String),
    Number(i64),
    String(String),
    Call { func: Box<Expr>, args: Vec<Expr> },
    IntentBlock { intent: String, constraints: std::collections::HashMap<String, String> },
}

/// Statements.
#[derive(Debug)]
pub enum Stmt {
    Let { name: String, ty: Option<Type>, value: Expr },
    Function {
        name: String,
        params: Vec<(String, Type)>,
        return_type: Type,
        capability: Option<Capability>,
        body: Vec<Stmt>,
    },
    Expression(Expr),
}

/// A module: its (possibly dotted) name, capability, imports and statements.
#[derive(Debug)]
pub struct Module {
    pub name: String,
    pub capability: Option<Capability>,
    pub imports: Vec<String>,
    pub statements: Vec<Stmt>,
}

} // verus!
