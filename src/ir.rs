//! Intermediate representation: modules of functions whose capabilities
//! mirror those of the syntax tree.
use vstd::prelude::*;
use vstd::string::StringExecFns;
use crate::ast::{Effect, ResourceBudget};

verus! {

/// Capability in the IR, with the same fields as in the syntax tree.
#[derive(Debug, Clone)]
pub struct IrCapability {
    pub effects: Vec<Effect>,
    pub budgets: ResourceBudget,
}

/// Instructions.
#[derive(Debug, Clone)]
pub enum IrInst {
    /// A constant value.
    Const { dest: String, value: IrValue },
    /// A call, with the capability it needs.
    Call { dest: String, func: String, args: Vec<String>, capability: Option<IrCapability> },
    /// An allocation of `size` units.
    Alloc { dest: String, size: u32 },
    /// A return, with or without a value.
    Return { value: Option<String> },
}

/// Constant values.
#[derive(Debug, Clone)]
pub enum IrValue {
    Int(i64),
    Text(String),
    Bool(bool),
}

/// A function: its name, its parameters as (name, type name) pairs, its
/// return type name, its capability and its instructions.
#[derive(Debug)]
pub struct IrFunction {
    pub name: String,
    pub params: Vec<(String, String)>,
    pub return_type: String,
    pub capability: Option<IrCapability>,
    pub body: Vec<IrInst>,
}

/// A compilation unit.
#[derive(Debug)]
pub struct IrModule {
    pub name: String,
    pub capability: Option<IrCapability>,
    pub functions: Vec<IrFunction>,
}

/// The character of a decimal digit.
pub open spec fn digit_char(d: nat) -> char {
    if d == 0 {
        '0'
    } else if d == 1 {
        '1'
    } else if d == 2 {
        '2'
    } else if d == 3 {
        '3'
    } else if d == 4 {
        '4'
    } else if d == 5 {
        '5'
    } else if d == 6 {
        '6'
    } else if d == 7 {
        '7'
    } else if d == 8 {
        '8'
    } else {
        '9'
    }
}

/// Decimal notation of a natural number, without leading zeros.
pub open spec fn decimal_text(n: nat) -> Seq<char>
    decreases n,
{
    if n < 10 {
        seq![digit_char(n)]
    } else {
        decimal_text(n / 10).push(digit_char(n % 10))
    }
}

/// Decimal notation of an integer, with a leading `-` when negative.
pub open spec fn signed_text(n: int) -> Seq<char> {
    if n < 0 {
        seq!['-'] + decimal_text((-n) as nat)
    } else {
        decimal_text(n as nat)
    }
}

/// Lower-case name of an effect.
pub open spec fn effect_text(e: Effect) -> Seq<char> {
    match e {
        Effect::Pure => "pure"@,
        Effect::Alloc => "alloc"@,
        Effect::Io => "io"@,
        Effect::Net => "net"@,
    }
}

/// The parts separated by `, `.
pub open spec fn joined(parts: Seq<Seq<char>>) -> Seq<char>
    decreases parts.len(),
{
    if parts.len() == 0 {
        Seq::empty()
    } else if parts.len() == 1 {
        parts[0]
    } else {
        joined(parts.drop_last()) + ", "@ + parts.last()
    }
}

/// The present limits of a budget, in the order tokens, latency, energy.
pub open spec fn budget_entries(b: ResourceBudget) -> Seq<Seq<char>> {
    let t = match b.tokens {
        Some(n) => seq!["tokens \u{2264} "@ + decimal_text(n as nat)],
        None => Seq::empty(),
    };
    let l = match b.latency_ms {
        Some(n) => seq!["latency \u{2264} "@ + decimal_text(n as nat) + "ms"@],
        None => Seq::empty(),
    };
    let e = match b.energy_mj {
        Some(n) => seq!["energy \u{2264} "@ + decimal_text(n as nat) + "mJ"@],
        None => Seq::empty(),
    };
    t + l + e
}

/// A capability written as in source: `!{effects, limits}`.
pub open spec fn capability_text(c: IrCapability) -> Seq<char> {
    "!{"@ + joined(c.effects@.map_values(|e: Effect| effect_text(e)) + budget_entries(c.budgets))
        + "}"@
}

/// ` ` and the capability, or nothing.
pub open spec fn opt_capability_text(c: Option<IrCapability>) -> Seq<char> {
    match c {
        Some(c) => " "@ + capability_text(c),
        None => Seq::empty(),
    }
}

/// A constant as written in a dump.
pub open spec fn value_text(v: IrValue) -> Seq<char> {
    match v {
        IrValue::Int(n) => signed_text(n as int),
        IrValue::Text(s) => "\""@ + s@ + "\""@,
        IrValue::Bool(b) => if b { "true"@ } else { "false"@ },
    }
}

/// An instruction as written in a dump.
pub open spec fn inst_text(i: IrInst) -> Seq<char> {
    match i {
        IrInst::Const { dest, value } => dest@ + " = const "@ + value_text(value),
        IrInst::Call { dest, func, args, capability } => dest@ + " = call "@ + func@ + "("@ + joined(
            args@.map_values(|a: String| a@),
        ) + ")"@ + opt_capability_text(capability),
        IrInst::Alloc { dest, size } => dest@ + " = alloc "@ + decimal_text(size as nat),
        IrInst::Return { value } => match value {
            Some(v) => "return "@ + v@,
            None => "return"@,
        },
    }
}

/// The instructions, one per line, indented.
pub open spec fn body_text(insts: Seq<IrInst>) -> Seq<char>
    decreases insts.len(),
{
    if insts.len() == 0 {
        Seq::empty()
    } else {
        body_text(insts.drop_last()) + "    "@ + inst_text(insts.last()) + "\n"@
    }
}

/// A parameter as `name: type`.
pub open spec fn param_text(p: (String, String)) -> Seq<char> {
    p.0@ + ": "@ + p.1@
}

/// A function: its signature and capability, then its body.
pub open spec fn function_text(f: IrFunction) -> Seq<char> {
    "\n  fn "@ + f.name@ + "("@ + joined(f.params@.map_values(|p: (String, String)| param_text(p)))
        + ") -> "@ + f.return_type@ + opt_capability_text(f.capability) + " {\n"@ + body_text(
        f.body@,
    ) + "  }\n"@
}

/// The functions, one after the other.
pub open spec fn functions_text(fs: Seq<IrFunction>) -> Seq<char>
    decreases fs.len(),
{
    if fs.len() == 0 {
        Seq::empty()
    } else {
        functions_text(fs.drop_last()) + function_text(fs.last())
    }
}

/// A module: its header with its capability, then its functions.
pub open spec fn module_text(m: IrModule) -> Seq<char> {
    "module "@ + m.name@ + opt_capability_text(m.capability) + " {\n"@ + functions_text(
        m.functions@,
    ) + "}\n"@
}

fn digit_str(d: u64) -> (r: &'static str)
    requires
        d < 10,
    ensures
        r@ == seq![digit_char(d as nat)],
{
    proof {
        reveal_strlit("0");
        reveal_strlit("1");
        reveal_strlit("2");
        reveal_strlit("3");
        reveal_strlit("4");
        reveal_strlit("5");
        reveal_strlit("6");
        reveal_strlit("7");
        reveal_strlit("8");
        reveal_strlit("9");
    }
    if d == 0 {
        "0"
    } else if d == 1 {
        "1"
    } else if d == 2 {
        "2"
    } else if d == 3 {
        "3"
    } else if d == 4 {
        "4"
    } else if d == 5 {
        "5"
    } else if d == 6 {
        "6"
    } else if d == 7 {
        "7"
    } else if d == 8 {
        "8"
    } else {
        "9"
    }
}

fn decimal_string(n: u64) -> (r: String)
    ensures
        r@ == decimal_text(n as nat),
    decreases n,
{
    if n < 10 {
        digit_str(n).to_owned()
    } else {
        let mut s = decimal_string(n / 10);
        s.append(digit_str(n % 10));
        proof {
            assert(s@ =~= decimal_text(n as nat));
        }
        s
    }
}

fn signed_string(n: i64) -> (r: String)
    ensures
        r@ == signed_text(n as int),
{
    if n < 0 {
        let magnitude: u64 = ((-(n + 1)) as u64) + 1;
        let mut s = "-".to_owned();
        s.append(decimal_string(magnitude).as_str());
        proof {
            reveal_strlit("-");
            assert(s@ =~= signed_text(n as int));
        }
        s
    } else {
        decimal_string(n as u64)
    }
}

fn effect_string(e: Effect) -> (r: String)
    ensures
        r@ == effect_text(e),
{
    match e {
        Effect::Pure => "pure".to_owned(),
        Effect::Alloc => "alloc".to_owned(),
        Effect::Io => "io".to_owned(),
        Effect::Net => "net".to_owned(),
    }
}

fn append_joined(out: &mut String, parts: &Vec<String>)
    ensures
        final(out)@ == old(out)@ + joined(parts@.map_values(|p: String| p@)),
{
    let ghost texts = parts@.map_values(|p: String| p@);
    let mut i: usize = 0;
    while i < parts.len()
        invariant
            i <= parts.len(),
            texts == parts@.map_values(|p: String| p@),
            out@ == old(out)@ + joined(texts.take(i as int)),
        decreases parts.len() - i,
    {
        proof {
            assert(texts.take(i as int + 1).drop_last() =~= texts.take(i as int));
            assert(texts.take(i as int + 1).last() == parts@[i as int]@);
        }
        if i > 0 {
            out.append(", ");
        }
        out.append(parts[i].as_str());
        proof {
            if i == 0 {
                assert(out@ =~= old(out)@ + joined(texts.take(1)));
            } else {
                assert(out@ =~= old(out)@ + joined(texts.take(i as int + 1)));
            }
        }
        i = i + 1;
    }
    proof {
        assert(texts.take(i as int) =~= texts);
    }
}

fn limit_string(label: &str, n: u32, unit: &str) -> (r: String)
    ensures
        r@ == label@ + decimal_text(n as nat) + unit@,
{
    let mut s = label.to_owned();
    s.append(decimal_string(n as u64).as_str());
    s.append(unit);
    s
}

fn capability_string(c: &IrCapability) -> (r: String)
    ensures
        r@ == capability_text(*c),
{
    let ghost effects = c.effects@.map_values(|e: Effect| effect_text(e));
    let mut parts: Vec<String> = Vec::new();
    let mut i: usize = 0;
    while i < c.effects.len()
        invariant
            i <= c.effects.len(),
            parts.len() == i,
            forall|j: int| 0 <= j < i ==> (#[trigger] parts@[j])@ == effect_text(c.effects@[j]),
        decreases c.effects.len() - i,
    {
        parts.push(effect_string(c.effects[i]));
        i = i + 1;
    }
    proof {
        assert(parts@.map_values(|p: String| p@) =~= effects);
    }
    let ghost before = parts@.map_values(|p: String| p@);
    match c.budgets.tokens {
        Some(n) => parts.push(limit_string("tokens \u{2264} ", n, "")),
        None => {},
    }
    let ghost with_tokens = parts@.map_values(|p: String| p@);
    match c.budgets.latency_ms {
        Some(n) => parts.push(limit_string("latency \u{2264} ", n, "ms")),
        None => {},
    }
    let ghost with_latency = parts@.map_values(|p: String| p@);
    match c.budgets.energy_mj {
        Some(n) => parts.push(limit_string("energy \u{2264} ", n, "mJ")),
        None => {},
    }
    proof {
        reveal_strlit("");
        let b = c.budgets;
        let t = match b.tokens {
            Some(n) => seq!["tokens \u{2264} "@ + decimal_text(n as nat)],
            None => Seq::<Seq<char>>::empty(),
        };
        let l = match b.latency_ms {
            Some(n) => seq!["latency \u{2264} "@ + decimal_text(n as nat) + "ms"@],
            None => Seq::<Seq<char>>::empty(),
        };
        let e = match b.energy_mj {
            Some(n) => seq!["energy \u{2264} "@ + decimal_text(n as nat) + "mJ"@],
            None => Seq::<Seq<char>>::empty(),
        };
        match b.tokens {
            Some(n) => {
                assert("tokens \u{2264} "@ + decimal_text(n as nat) + ""@ =~= "tokens \u{2264} "@
                    + decimal_text(n as nat));
            },
            None => {},
        }
        assert(with_tokens =~= before + t);
        assert(with_latency =~= before + t + l);
        assert(parts@.map_values(|p: String| p@) =~= before + t + l + e);
        assert(budget_entries(b) == t + l + e);
        assert(parts@.map_values(|p: String| p@) =~= effects + budget_entries(b));
    }
    let mut s = "!{".to_owned();
    append_joined(&mut s, &parts);
    s.append("}");
    s
}

fn append_opt_capability(out: &mut String, c: &Option<IrCapability>)
    ensures
        final(out)@ == old(out)@ + opt_capability_text(*c),
{
    match c {
        Some(c) => {
            out.append(" ");
            out.append(capability_string(c).as_str());
            proof {
                assert(out@ =~= old(out)@ + opt_capability_text(Some(*c)));
            }
        },
        None => {
            proof {
                assert(out@ =~= old(out)@ + opt_capability_text(None));
            }
        },
    }
}

fn value_string(v: &IrValue) -> (r: String)
    ensures
        r@ == value_text(*v),
{
    match v {
        IrValue::Int(n) => signed_string(*n),
        IrValue::Text(t) => {
            let mut s = "\"".to_owned();
            s.append(t.as_str());
            s.append("\"");
            s
        },
        IrValue::Bool(b) => if *b {
            "true".to_owned()
        } else {
            "false".to_owned()
        },
    }
}

fn inst_string(i: &IrInst) -> (r: String)
    ensures
        r@ == inst_text(*i),
{
    match i {
        IrInst::Const { dest, value } => {
            let mut s = dest.clone();
            s.append(" = const ");
            s.append(value_string(value).as_str());
            s
        },
        IrInst::Call { dest, func, args, capability } => {
            let mut s = dest.clone();
            s.append(" = call ");
            s.append(func.as_str());
            s.append("(");
            append_joined(&mut s, args);
            s.append(")");
            append_opt_capability(&mut s, capability);
            s
        },
        IrInst::Alloc { dest, size } => {
            let mut s = dest.clone();
            s.append(" = alloc ");
            s.append(decimal_string(*size as u64).as_str());
            s
        },
        IrInst::Return { value } => match value {
            Some(v) => {
                let mut s = "return ".to_owned();
                s.append(v.as_str());
                s
            },
            None => "return".to_owned(),
        },
    }
}

fn function_string(f: &IrFunction) -> (r: String)
    ensures
        r@ == function_text(*f),
{
    let mut params: Vec<String> = Vec::new();
    let mut i: usize = 0;
    while i < f.params.len()
        invariant
            i <= f.params.len(),
            params.len() == i,
            forall|j: int| 0 <= j < i ==> (#[trigger] params@[j])@ == param_text(f.params@[j]),
        decreases f.params.len() - i,
    {
        let mut p = f.params[i].0.clone();
        p.append(": ");
        p.append(f.params[i].1.as_str());
        params.push(p);
        i = i + 1;
    }
    proof {
        assert(params@.map_values(|p: String| p@) =~= f.params@.map_values(
            |p: (String, String)| param_text(p),
        ));
    }
    let mut s = "\n  fn ".to_owned();
    s.append(f.name.as_str());
    s.append("(");
    append_joined(&mut s, &params);
    s.append(") -> ");
    s.append(f.return_type.as_str());
    append_opt_capability(&mut s, &f.capability);
    s.append(" {\n");
    let ghost head = s@;
    let mut k: usize = 0;
    while k < f.body.len()
        invariant
            k <= f.body.len(),
            s@ == head + body_text(f.body@.take(k as int)),
        decreases f.body.len() - k,
    {
        proof {
            assert(f.body@.take(k as int + 1).drop_last() =~= f.body@.take(k as int));
        }
        s.append("    ");
        s.append(inst_string(&f.body[k]).as_str());
        s.append("\n");
        k = k + 1;
        proof {
            assert(s@ =~= head + body_text(f.body@.take(k as int)));
        }
    }
    proof {
        assert(f.body@.take(k as int) =~= f.body@);
    }
    s.append("  }\n");
    proof {
        assert(s@ =~= function_text(*f));
    }
    s
}

impl IrModule {
    /// A readable dump of the module: a header line `module name !{...} {`,
    /// then each function's signature and capability followed by its
    /// instructions, one per line.
    pub fn debug_print(&self) -> (r: String)
        ensures
            r@ == module_text(*self),
    {
        let mut s = "module ".to_owned();
        s.append(self.name.as_str());
        append_opt_capability(&mut s, &self.capability);
        s.append(" {\n");
        let ghost head = s@;
        let mut k: usize = 0;
        while k < self.functions.len()
            invariant
                k <= self.functions.len(),
                s@ == head + functions_text(self.functions@.take(k as int)),
            decreases self.functions.len() - k,
        {
            proof {
                assert(self.functions@.take(k as int + 1).drop_last() =~= self.functions@.take(k as int));
            }
            s.append(function_string(&self.functions[k]).as_str());
            k = k + 1;
            proof {
                assert(s@ =~= head + functions_text(self.functions@.take(k as int)));
            }
        }
        proof {
            assert(self.functions@.take(k as int) =~= self.functions@);
        }
        s.append("}\n");
        proof {
            assert(s@ =~= module_text(*self));
        }
        s
    }
}

} // verus!
