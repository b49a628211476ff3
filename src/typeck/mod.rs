//! Type checking: the symbol table and the checker's state.
use vstd::prelude::*;
use crate::ast::{Module, Type};

pub mod symbol_table;

use symbol_table::SymbolTable;

verus! {

/// State of the type checker.
#[derive(Debug)]
pub struct TypeChecker {
    symbols: SymbolTable,
    /// Pairs of types that must unify.
    pub constraints: Vec<(Type, Type)>,
}

impl TypeChecker {
    /// The scopes of the checker's symbol table.
    pub closed spec fn scopes(&self) -> Seq<Map<Seq<char>, Type>> {
        self.symbols.scopes()
    }

    /// The unification constraints gathered so far.
    pub closed spec fn pending(&self) -> Seq<(Type, Type)> {
        self.constraints@
    }

    /// A checker with an empty symbol table and no constraints.
    pub fn new() -> (r: TypeChecker)
        ensures
            r.scopes() == seq![Map::<Seq<char>, Type>::empty()],
            r.pending().len() == 0,
    {
        TypeChecker { symbols: SymbolTable::new(), constraints: Vec::new() }
    }

    /// Checks a module. No rule is checked at this stage: every module is
    /// accepted and the checker is left as it was.
    pub fn check_module(&mut self, module: &Module) -> (r: Result<(), TypeError>)
        ensures
            r is Ok,
            final(self).scopes() == old(self).scopes(),
            final(self).pending() == old(self).pending(),
    {
        Ok(())
    }
}

/// Errors of type checking.
#[derive(Debug)]
pub enum TypeError {
    UnboundVariable(String),
    TypeMismatch { expected: Type, found: Type },
    UnificationFailure(Type, Type),
}

} // verus!
