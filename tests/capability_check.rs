use forgec0::{capability_subsumes, effect_join, Capability, Effect, ResourceBudget};

fn budget(tokens: Option<u32>, latency_ms: Option<u32>, energy_mj: Option<u32>) -> ResourceBudget {
    ResourceBudget { tokens, latency_ms, energy_mj }
}

fn cap(effects: Vec<Effect>, budgets: ResourceBudget) -> Capability {
    Capability { effects, budgets }
}

#[test]
fn test_effect_join_multiple() {
    let effects = vec![Effect::Pure, Effect::Alloc, Effect::Io];
    assert_eq!(effect_join(&effects), Effect::Io);
}

#[test]
fn test_capability_subsumes_effects() {
    let required = Capability {
        effects: vec![Effect::Io],
        budgets: ResourceBudget { tokens: None, latency_ms: None, energy_mj: None },
    };

    let provided = Capability {
        effects: vec![Effect::Net],
        budgets: ResourceBudget { tokens: None, latency_ms: None, energy_mj: None },
    };

    assert!(capability_subsumes(&required, &provided));
    assert!(!capability_subsumes(&provided, &required));
}

#[test]
fn test_resource_budget_checking() {
    let required = Capability {
        effects: vec![Effect::Pure],
        budgets: ResourceBudget { tokens: Some(100), latency_ms: Some(50), energy_mj: None },
    };

    let provided = Capability {
        effects: vec![Effect::Pure],
        budgets: ResourceBudget { tokens: Some(200), latency_ms: Some(30), energy_mj: Some(10) },
    };

    assert!(capability_subsumes(&required, &provided));
}

#[test]
fn test_effect_hierarchy() {
    let effects = vec![Effect::Pure, Effect::Alloc, Effect::Io, Effect::Net];
    assert_eq!(effects.len(), 4);
}

#[test]
fn test_effect_subsumption() {
    assert!(Effect::Pure.subsumes(&Effect::Pure));
    assert!(Effect::Pure.subsumes(&Effect::Alloc));
    assert!(Effect::Pure.subsumes(&Effect::Io));
    assert!(Effect::Pure.subsumes(&Effect::Net));

    assert!(!Effect::Alloc.subsumes(&Effect::Pure));
    assert!(Effect::Alloc.subsumes(&Effect::Alloc));
    assert!(Effect::Alloc.subsumes(&Effect::Io));
    assert!(Effect::Alloc.subsumes(&Effect::Net));

    assert!(!Effect::Net.subsumes(&Effect::Pure));
    assert!(!Effect::Net.subsumes(&Effect::Alloc));
    assert!(!Effect::Net.subsumes(&Effect::Io));
    assert!(Effect::Net.subsumes(&Effect::Net));
}

#[test]
fn test_effect_join() {
    assert_eq!(Effect::Pure.join(&Effect::Pure), Effect::Pure);
    assert_eq!(Effect::Pure.join(&Effect::Net), Effect::Net);
    assert_eq!(Effect::Alloc.join(&Effect::Io), Effect::Io);
    assert_eq!(Effect::Io.join(&Effect::Alloc), Effect::Io);
}

#[test]
fn effect_order_is_total_and_join_meet_agree() {
    let all = [Effect::Pure, Effect::Alloc, Effect::Io, Effect::Net];
    for (i, a) in all.iter().enumerate() {
        for (j, b) in all.iter().enumerate() {
            let lt = a < b;
            let eq = a == b;
            let gt = b < a;
            assert_eq!(lt as u8 + eq as u8 + gt as u8, 1);
            assert_eq!(lt, i < j);
            let (hi, lo) = if i >= j { (*a, *b) } else { (*b, *a) };
            assert_eq!(a.join(b), hi);
            assert_eq!(a.meet(b), lo);
            assert_eq!(a.subsumes(b), i <= j);
        }
    }
}

#[test]
fn meet_takes_the_weaker_effect() {
    assert_eq!(Effect::Net.meet(&Effect::Alloc), Effect::Alloc);
    assert_eq!(Effect::Pure.meet(&Effect::Io), Effect::Pure);
}

#[test]
fn subsumption_is_reflexive() {
    let caps = vec![
        cap(vec![], budget(None, None, None)),
        cap(vec![Effect::Io, Effect::Alloc], budget(Some(5), Some(7), Some(9))),
        cap(vec![Effect::Net], budget(None, Some(0), None)),
    ];
    for c in &caps {
        assert!(capability_subsumes(c, c));
    }
}

#[test]
fn budget_directions() {
    let none = budget(None, None, None);
    let req_tokens = cap(vec![], budget(Some(100), None, None));
    assert!(capability_subsumes(&req_tokens, &cap(vec![], budget(Some(200), None, None))));
    assert!(!capability_subsumes(&req_tokens, &cap(vec![], budget(Some(50), None, None))));
    assert!(!capability_subsumes(&req_tokens, &cap(vec![], none)));

    let req_latency = cap(vec![], budget(None, Some(50), None));
    assert!(capability_subsumes(&req_latency, &cap(vec![], budget(None, Some(30), None))));
    assert!(capability_subsumes(&req_latency, &cap(vec![], budget(None, Some(50), None))));
    assert!(!capability_subsumes(&req_latency, &cap(vec![], budget(None, Some(80), None))));

    let req_energy = cap(vec![], budget(None, None, Some(10)));
    assert!(capability_subsumes(&req_energy, &cap(vec![], budget(None, None, Some(3)))));
    assert!(!capability_subsumes(&req_energy, &cap(vec![], budget(None, None, Some(11)))));
    assert!(!capability_subsumes(&req_energy, &cap(vec![], budget(None, None, None))));

    assert!(capability_subsumes(&cap(vec![], none), &cap(vec![], budget(Some(1), Some(1), Some(1)))));
}

#[test]
fn empty_effect_list_joins_to_pure() {
    assert_eq!(effect_join(&[]), Effect::Pure);
    let empty = cap(vec![], budget(None, None, None));
    let pure = cap(vec![Effect::Pure], budget(None, None, None));
    let alloc = cap(vec![Effect::Alloc], budget(None, None, None));
    assert!(capability_subsumes(&empty, &pure));
    assert!(capability_subsumes(&pure, &empty));
    assert!(!capability_subsumes(&alloc, &empty));
    assert_eq!(effect_join(&[Effect::Net, Effect::Pure, Effect::Io]), Effect::Net);
}
