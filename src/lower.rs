//! Lowering from the syntax tree to the IR. Lowering is total.
use vstd::prelude::*;
use vstd::string::StringExecFns;
use crate::ast::{Capability, Effect, Module, Stmt, Type};
use crate::ir::{IrCapability, IrFunction, IrInst, IrModule};
use crate::parser::{function_stmt_of, FunctionHeader};

verus! {

/// Canonical text of a type. A function type shows only its return type.
pub open spec fn type_text(t: Type) -> Seq<char>
    decreases t,
{
    match t {
        Type::Int => "Int"@,
        Type::Text => "Text"@,
        Type::Bool => "Bool"@,
        Type::Array(inner) => "Array<"@ + type_text(*inner) + ">"@,
        Type::Function { return_type, .. } => "Func<"@ + type_text(*return_type) + ">"@,
        Type::Custom(name) => name@,
    }
}

/// `ir` holds the effects and budgets of `c`.
pub open spec fn lowers_capability(ir: IrCapability, c: Capability) -> bool {
    &&& ir.effects@ == c.effects@
    &&& ir.budgets == c.budgets
}

/// Both absent, or both present with the one lowering the other.
pub open spec fn lowers_opt_capability(ir: Option<IrCapability>, c: Option<Capability>) -> bool {
    match (ir, c) {
        (None, None) => true,
        (Some(i), Some(c)) => lowers_capability(i, c),
        _ => false,
    }
}

/// `f` lowers the function statement `s`: same name, parameters with their
/// types as text, return type as text, capability lowered, and a body of one
/// `Return` without a value.
pub open spec fn lowers_function(f: IrFunction, s: Stmt) -> bool {
    match s {
        Stmt::Function { name, params, return_type, capability, .. } => {
            &&& f.name@ == name@
            &&& f.params.len() == params.len()
            &&& forall|i: int|
                0 <= i < params.len() ==> (#[trigger] f.params@[i]).0@ == params@[i].0@
                    && f.params@[i].1@ == type_text(params@[i].1)
            &&& f.return_type@ == type_text(return_type)
            &&& lowers_opt_capability(f.capability, capability)
            &&& f.body@ == seq![IrInst::Return { value: None }]
        },
        _ => false,
    }
}

/// The function statements among `stmts`, in order.
pub open spec fn function_stmts(stmts: Seq<Stmt>) -> Seq<Stmt>
    decreases stmts.len(),
{
    if stmts.len() == 0 {
        Seq::empty()
    } else {
        let init = function_stmts(stmts.drop_last());
        if stmts.last() is Function {
            init.push(stmts.last())
        } else {
            init
        }
    }
}

/// Copies a capability into IR form.
pub fn lower_capability(cap: &Capability) -> (r: IrCapability)
    ensures
        lowers_capability(r, *cap),
{
    let mut effects: Vec<Effect> = Vec::new();
    let mut i: usize = 0;
    while i < cap.effects.len()
        invariant
            i <= cap.effects@.len(),
            effects@ == cap.effects@.take(i as int),
        decreases cap.effects.len() - i,
    {
        effects.push(cap.effects[i]);
        i = i + 1;
        proof {
            assert(effects@ =~= cap.effects@.take(i as int));
        }
    }
    proof {
        assert(effects@ =~= cap.effects@);
    }
    IrCapability { effects, budgets: cap.budgets }
}

fn lower_opt_capability(cap: &Option<Capability>) -> (r: Option<IrCapability>)
    ensures
        lowers_opt_capability(r, *cap),
{
    match cap {
        Some(c) => Some(lower_capability(c)),
        None => None,
    }
}

/// Canonical text of a type: `Int`, `Text`, `Bool`, `Array<T>`, `Func<R>`
/// for a function type returning `R`, or a custom type's name.
pub fn lower_type(ty: &Type) -> (r: String)
    ensures
        r@ == type_text(*ty),
    decreases ty,
{
    match ty {
        Type::Int => "Int".to_owned(),
        Type::Text => "Text".to_owned(),
        Type::Bool => "Bool".to_owned(),
        Type::Array(inner) => {
            let mut s = "Array<".to_owned();
            let inner_text = lower_type(inner);
            s.append(inner_text.as_str());
            s.append(">");
            s
        },
        Type::Function { return_type, .. } => {
            let mut s = "Func<".to_owned();
            let ret_text = lower_type(return_type);
            s.append(ret_text.as_str());
            s.append(">");
            s
        },
        Type::Custom(name) => name.clone(),
    }
}

fn lower_params(params: &Vec<(String, Type)>) -> (r: Vec<(String, String)>)
    ensures
        r.len() == params.len(),
        forall|i: int|
            0 <= i < params.len() ==> (#[trigger] r@[i]).0@ == params@[i].0@ && r@[i].1@
                == type_text(params@[i].1),
{
    let mut out: Vec<(String, String)> = Vec::new();
    let mut i: usize = 0;
    while i < params.len()
        invariant
            i <= params.len(),
            out.len() == i,
            forall|j: int|
                0 <= j < i ==> (#[trigger] out@[j]).0@ == params@[j].0@ && out@[j].1@
                    == type_text(params@[j].1),
        decreases params.len() - i,
    {
        let name = params[i].0.clone();
        let text = lower_type(&params[i].1);
        out.push((name, text));
        i = i + 1;
    }
    out
}

/// Lowers a module: each function statement, in order, becomes an IR
/// function with a single `Return` instruction; other statements are
/// skipped. The name and capability are carried over.
pub fn lower_module(module: &Module) -> (r: IrModule)
    ensures
        r.name@ == module.name@,
        lowers_opt_capability(r.capability, module.capability),
        r.functions.len() == function_stmts(module.statements@).len(),
        forall|i: int|
            0 <= i < r.functions.len() ==> lowers_function(
                #[trigger] r.functions@[i],
                function_stmts(module.statements@)[i],
            ),
{
    let mut functions: Vec<IrFunction> = Vec::new();
    let mut i: usize = 0;
    while i < module.statements.len()
        invariant
            i <= module.statements.len(),
            functions.len() == function_stmts(module.statements@.take(i as int)).len(),
            forall|j: int|
                0 <= j < functions.len() ==> lowers_function(
                    #[trigger] functions@[j],
                    function_stmts(module.statements@.take(i as int))[j],
                ),
        decreases module.statements.len() - i,
    {
        let ghost prefix = module.statements@.take(i as int);
        let ghost next = module.statements@.take(i as int + 1);
        proof {
            assert(next.drop_last() =~= prefix);
            assert(next.last() == module.statements@[i as int]);
        }
        match &module.statements[i] {
            Stmt::Function { name, params, return_type, capability, .. } => {
                let mut body: Vec<IrInst> = Vec::new();
                body.push(IrInst::Return { value: None });
                let f = IrFunction {
                    name: name.clone(),
                    params: lower_params(params),
                    return_type: lower_type(return_type),
                    capability: lower_opt_capability(capability),
                    body,
                };
                proof {
                    assert(f.body@ =~= seq![IrInst::Return { value: None }]);
                }
                let ghost before = functions@;
                functions.push(f);
                proof {
                    assert forall|j: int| 0 <= j < functions.len() implies lowers_function(
                        #[trigger] functions@[j],
                        function_stmts(next)[j],
                    ) by {
                        if j < before.len() {
                            assert(functions@[j] == before[j]);
                        }
                    }
                }
            },
            _ => {},
        }
        i = i + 1;
    }
    proof {
        assert(module.statements@.take(i as int) =~= module.statements@);
    }
    IrModule {
        name: module.name.clone(),
        capability: lower_opt_capability(&module.capability),
        functions,
    }
}

/// Lowering a parsed function declaration keeps what it declares: the IR
/// function has the declared name and exactly the declared capability (its
/// effects in order, and its budgets), or none when none was declared, and
/// its body is one `Return` without a value.
pub proof fn lemma_lowering_keeps_declaration(s: Stmt, h: FunctionHeader, f: IrFunction)
    requires
        function_stmt_of(s, h),
        lowers_function(f, s),
    ensures
        f.name@ == h.name,
        f.params.len() == h.params.len(),
        f.capability is None <==> h.capability is None,
        f.capability is Some ==> f.capability->Some_0.effects@ == h.capability->Some_0.effects
            && f.capability->Some_0.budgets == h.capability->Some_0.budgets,
        f.body@ == seq![IrInst::Return { value: None }],
{
}

} // verus!
