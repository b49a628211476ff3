use forgec0::{Effect, ParseError, Parser, Stmt, Token, Type};

#[test]
fn test_parse_module_with_capability() {
    let mut parser = Parser::new("module data.pipeline !{energy ≤ 10mJ}");
    let module = parser.parse_module().unwrap();

    assert_eq!(module.name, "data.pipeline");
    assert!(module.capability.is_some());

    let cap = module.capability.unwrap();
    assert_eq!(cap.budgets.energy_mj, Some(10));
}

#[test]
fn test_parse_function_multiple_params() {
    let mut parser =
        Parser::new("fn transform(input: Vec, config: Config) -> Result !{io, alloc}");

    match parser.parse_function().unwrap() {
        Stmt::Function { name, params, return_type, capability, .. } => {
            assert_eq!(name, "transform");
            assert_eq!(params.len(), 2);

            assert_eq!(params[0].0, "input");
            matches!(params[0].1, Type::Custom(ref s) if s == "Vec");

            assert_eq!(params[1].0, "config");
            matches!(params[1].1, Type::Custom(ref s) if s == "Config");

            matches!(return_type, Type::Custom(ref s) if s == "Result");

            let cap = capability.unwrap();
            assert_eq!(cap.effects.len(), 2);
            assert!(cap.effects.contains(&Effect::Io));
            assert!(cap.effects.contains(&Effect::Alloc));
        }
        _ => panic!("Expected Function statement"),
    }
}

#[test]
fn test_parse_complex_capability() {
    let mut parser = Parser::new("!{net, io, tokens ≤ 100, latency ≤ 200ms, energy ≤ 5mJ}");
    let cap = parser.parse_capability().unwrap();

    assert_eq!(cap.effects.len(), 2);
    assert!(cap.effects.contains(&Effect::Net));
    assert!(cap.effects.contains(&Effect::Io));

    assert_eq!(cap.budgets.tokens, Some(100));
    assert_eq!(cap.budgets.latency_ms, Some(200));
    assert_eq!(cap.budgets.energy_mj, Some(5));
}

#[test]
fn test_parse_pure_effect() {
    let mut parser = Parser::new("!{pure}");
    let cap = parser.parse_capability().unwrap();
    assert_eq!(cap.effects, vec![Effect::Pure]);
}

#[test]
fn test_parse_function_without_capability() {
    let mut parser = Parser::new("fn add(x: Int, y: Int) -> Int");

    match parser.parse_function().unwrap() {
        Stmt::Function { name, params, return_type, capability, .. } => {
            assert_eq!(name, "add");
            assert_eq!(params.len(), 2);
            assert!(capability.is_none());
            matches!(return_type, Type::Int);
        }
        _ => panic!("Expected Function statement"),
    }
}

#[test]
fn test_empty_capability() {
    let mut parser = Parser::new("!{}");
    let cap = parser.parse_capability().unwrap();
    assert!(cap.effects.is_empty());
    assert!(cap.budgets.tokens.is_none());
    assert!(cap.budgets.latency_ms.is_none());
    assert!(cap.budgets.energy_mj.is_none());
}

#[test]
fn test_module_simple_name() {
    let mut parser = Parser::new("module main");
    let module = parser.parse_module().unwrap();
    assert_eq!(module.name, "main");
    assert!(module.capability.is_none());
}

#[test]
fn test_all_effects() {
    let mut parser = Parser::new("!{pure, alloc, io, net}");
    let cap = parser.parse_capability().unwrap();

    assert_eq!(cap.effects.len(), 4);
    assert!(cap.effects.contains(&Effect::Pure));
    assert!(cap.effects.contains(&Effect::Alloc));
    assert!(cap.effects.contains(&Effect::Io));
    assert!(cap.effects.contains(&Effect::Net));
}

#[test]
fn test_parse_simple_capability() {
    let mut parser = Parser::new("!{net}");
    let cap = parser.parse_capability().unwrap();
    assert_eq!(cap.effects, vec![Effect::Net]);
    assert_eq!(cap.budgets.tokens, None);
}

#[test]
fn test_parse_multiple_effects() {
    let mut parser = Parser::new("!{io, net, alloc}");
    let cap = parser.parse_capability().unwrap();
    assert_eq!(cap.effects.len(), 3);
    assert!(cap.effects.contains(&Effect::Io));
    assert!(cap.effects.contains(&Effect::Net));
    assert!(cap.effects.contains(&Effect::Alloc));
}

#[test]
fn test_parse_resource_constraints() {
    let mut parser = Parser::new("!{tokens ≤ 100, latency ≤ 50ms}");
    let cap = parser.parse_capability().unwrap();
    assert_eq!(cap.budgets.tokens, Some(100));
    assert_eq!(cap.budgets.latency_ms, Some(50));
}

#[test]
fn test_parse_function_with_capability() {
    let mut parser = Parser::new("fn process(data: Text) -> Int !{net, tokens ≤ 8}");
    match parser.parse_function().unwrap() {
        Stmt::Function { name, params, return_type, capability, .. } => {
            assert_eq!(name, "process");
            assert_eq!(params.len(), 1);
            assert_eq!(params[0].0, "data");
            matches!(params[0].1, Type::Text);
            matches!(return_type, Type::Int);

            let cap = capability.unwrap();
            assert!(cap.effects.contains(&Effect::Net));
            assert_eq!(cap.budgets.tokens, Some(8));
        }
        _ => panic!("Expected Function statement"),
    }
}

#[test]
fn malformed_capability_names_the_entry() {
    let mut parser = Parser::new("!{bogus}");
    match parser.parse_capability() {
        Err(ParseError::InvalidEffect(name)) => assert_eq!(name, "bogus"),
        other => panic!("unexpected result {:?}", other),
    }
}

#[test]
fn entries_need_a_separator() {
    let mut parser = Parser::new("!{net io}");
    match parser.parse_capability() {
        Err(ParseError::UnexpectedToken { expected, found }) => {
            assert_eq!(expected, ", or }");
            assert_eq!(found, Token::Ident("io".to_string()));
        }
        other => panic!("unexpected result {:?}", other),
    }
}

#[test]
fn capability_needs_a_bang() {
    let mut parser = Parser::new("{net}");
    match parser.parse_capability() {
        Err(ParseError::UnexpectedToken { expected, found }) => {
            assert_eq!(expected, "Bang");
            assert_eq!(found, Token::LBrace);
        }
        other => panic!("unexpected result {:?}", other),
    }
}

#[test]
fn unclosed_capability_reports_eof() {
    let mut parser = Parser::new("!{net,");
    match parser.parse_capability() {
        Err(ParseError::UnexpectedToken { expected, found }) => {
            assert_eq!(expected, "effect or resource constraint");
            assert_eq!(found, Token::Eof);
        }
        other => panic!("unexpected result {:?}", other),
    }
}

#[test]
fn budget_needs_a_number() {
    let mut parser = Parser::new("!{tokens ≤ many}");
    match parser.parse_capability() {
        Err(ParseError::UnexpectedToken { expected, found }) => {
            assert_eq!(expected, "number");
            assert_eq!(found, Token::Ident("many".to_string()));
        }
        other => panic!("unexpected result {:?}", other),
    }
    let mut parser = Parser::new("!{latency 5}");
    match parser.parse_capability() {
        Err(ParseError::UnexpectedToken { expected, found }) => {
            assert_eq!(expected, "LessThanEqual");
            assert_eq!(found, Token::Number(5));
        }
        other => panic!("unexpected result {:?}", other),
    }
}

#[test]
fn later_budget_entry_wins_and_commas_repeat() {
    let mut parser = Parser::new("!{,tokens ≤ 1,, tokens ≤ 2, net, net}");
    let cap = parser.parse_capability().unwrap();
    assert_eq!(cap.budgets.tokens, Some(2));
    assert_eq!(cap.effects, vec![Effect::Net, Effect::Net]);
}

#[test]
fn unknown_unit_is_left_for_the_caller() {
    let mut parser = Parser::new("!{latency ≤ 5s}");
    match parser.parse_capability() {
        Err(ParseError::UnexpectedToken { expected, found }) => {
            assert_eq!(expected, ", or }");
            assert_eq!(found, Token::Ident("s".to_string()));
        }
        other => panic!("unexpected result {:?}", other),
    }
}

#[test]
fn large_budget_is_truncated_to_u32() {
    let mut parser = Parser::new("!{tokens ≤ 4294967297}");
    let cap = parser.parse_capability().unwrap();
    assert_eq!(cap.budgets.tokens, Some(1));
}

#[test]
fn empty_and_bad_parameter_lists() {
    let mut parser = Parser::new("fn f() -> Bool");
    match parser.parse_function().unwrap() {
        Stmt::Function { params, return_type, body, .. } => {
            assert!(params.is_empty());
            assert!(matches!(return_type, Type::Bool));
            assert!(body.is_empty());
        }
        _ => panic!("Expected Function statement"),
    }
    let mut parser = Parser::new("fn f(x: Int,) -> Int");
    match parser.parse_function() {
        Err(ParseError::UnexpectedToken { expected, found }) => {
            assert_eq!(expected, "identifier");
            assert_eq!(found, Token::RParen);
        }
        other => panic!("unexpected result {:?}", other),
    }
    let mut parser = Parser::new("fn f(x: Int y: Int) -> Int");
    match parser.parse_function() {
        Err(ParseError::UnexpectedToken { expected, found }) => {
            assert_eq!(expected, ", or )");
            assert_eq!(found, Token::Ident("y".to_string()));
        }
        other => panic!("unexpected result {:?}", other),
    }
}

#[test]
fn module_name_after_dot_must_be_an_identifier() {
    let mut parser = Parser::new("module a.");
    match parser.parse_module() {
        Err(ParseError::UnexpectedToken { expected, found }) => {
            assert_eq!(expected, "identifier");
            assert_eq!(found, Token::Eof);
        }
        other => panic!("unexpected result {:?}", other),
    }
    let mut parser = Parser::new("module a.b.c");
    assert_eq!(parser.parse_module().unwrap().name, "a.b.c");
}

#[test]
fn dotted_module_name_is_one_text() {
    let mut parser = Parser::new("module data.pipeline");
    let module = parser.parse_module().unwrap();
    assert_eq!(module.name, "data.pipeline");
    assert!(module.capability.is_none());
    assert!(module.statements.is_empty());
}

#[test]
fn builtin_and_custom_types() {
    let mut parser = Parser::new("Int Text Bool Graph");
    assert!(matches!(parser.parse_type().unwrap(), Type::Int));
    assert!(matches!(parser.parse_type().unwrap(), Type::Text));
    assert!(matches!(parser.parse_type().unwrap(), Type::Bool));
    assert!(matches!(parser.parse_type().unwrap(), Type::Custom(ref s) if s == "Graph"));
}
