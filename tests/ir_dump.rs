use forgec0::{
    lower_module, Capability, Effect, IrCapability, IrFunction, IrInst, IrModule, IrValue, Module,
    Parser, ResourceBudget,
};

#[test]
fn dump_of_a_lowered_module() {
    let mut parser = Parser::new("fn add(x: Int, y: Text) -> Int !{pure}");
    let func = parser.parse_function().unwrap();
    let module = Module {
        name: "m".to_string(),
        capability: Some(Capability {
            effects: vec![Effect::Net],
            budgets: ResourceBudget { tokens: Some(5), latency_ms: None, energy_mj: None },
        }),
        imports: vec![],
        statements: vec![func],
    };
    let ir = lower_module(&module);
    assert_eq!(
        ir.debug_print(),
        "module m !{net, tokens ≤ 5} {\n\n  fn add(x: Int, y: Text) -> Int !{pure} {\n    return\n  }\n}\n"
    );
}

#[test]
fn dump_of_each_instruction() {
    let f = IrFunction {
        name: "g".to_string(),
        params: vec![],
        return_type: "Unit".to_string(),
        capability: None,
        body: vec![
            IrInst::Const { dest: "a".to_string(), value: IrValue::Int(-12) },
            IrInst::Const { dest: "t".to_string(), value: IrValue::Text("hi".to_string()) },
            IrInst::Const { dest: "z".to_string(), value: IrValue::Int(i64::MIN) },
            IrInst::Const { dest: "f".to_string(), value: IrValue::Bool(false) },
            IrInst::Call {
                dest: "b".to_string(),
                func: "h".to_string(),
                args: vec!["a".to_string(), "c".to_string()],
                capability: Some(IrCapability {
                    effects: vec![Effect::Io],
                    budgets: ResourceBudget { tokens: None, latency_ms: Some(30), energy_mj: Some(0) },
                }),
            },
            IrInst::Alloc { dest: "d".to_string(), size: 4096 },
            IrInst::Return { value: Some("b".to_string()) },
        ],
    };
    let m = IrModule { name: "x.y".to_string(), capability: None, functions: vec![f] };
    assert_eq!(
        m.debug_print(),
        "module x.y {\n\n  fn g() -> Unit {\n    a = const -12\n    t = const \"hi\"\n    z = const -9223372036854775808\n    f = const false\n    b = call h(a, c) !{io, latency ≤ 30ms, energy ≤ 0mJ}\n    d = alloc 4096\n    return b\n  }\n}\n"
    );
}

#[test]
fn dump_of_an_empty_module() {
    let m = IrModule { name: "e".to_string(), capability: None, functions: vec![] };
    assert_eq!(m.debug_print(), "module e {\n}\n");
}
