//! Effect joins over lists and capability subsumption.
use vstd::prelude::*;
use crate::ast::{Capability, CapabilityView, Effect, ResourceBudget};
use core::cmp::Ordering;
use vstd::std_specs::cmp::PartialOrdSpec;

verus! {

/// Join of a list of effects, folding from `Pure`.
pub open spec fn join_all(effects: Seq<Effect>) -> Effect
    decreases effects.len(),
{
    if effects.len() == 0 {
        Effect::Pure
    } else {
        join_all(effects.drop_last()).spec_join(effects.last())
    }
}

/// A required limit is met by a provided one when the provided side states a
/// limit and `ok` holds of the two values.
pub open spec fn axis_met(req: Option<u32>, prov: Option<u32>, more_is_fine: bool) -> bool {
    match req {
        None => true,
        Some(r) => match prov {
            None => false,
            Some(p) => if more_is_fine { p >= r } else { p <= r },
        },
    }
}

/// The provided budget satisfies the required one: at least as many tokens,
/// at most as much latency and energy.
pub open spec fn budgets_met(req: ResourceBudget, prov: ResourceBudget) -> bool {
    &&& axis_met(req.tokens, prov.tokens, true)
    &&& axis_met(req.latency_ms, prov.latency_ms, false)
    &&& axis_met(req.energy_mj, prov.energy_mj, false)
}

/// The provided capability grants everything the required one asks for.
pub open spec fn subsumed_by(required: CapabilityView, provided: CapabilityView) -> bool {
    &&& join_all(required.effects).at_most(join_all(provided.effects))
    &&& budgets_met(required.budgets, provided.budgets)
}

/// The join of a list is the most permissive effect in it, or `Pure` when the
/// list is empty.
pub proof fn lemma_join_all_is_max(effects: Seq<Effect>)
    ensures
        forall|i: int| 0 <= i < effects.len() ==> effects[i].at_most(join_all(effects)),
        effects.len() == 0 ==> join_all(effects) == Effect::Pure,
        effects.len() > 0 ==> effects.contains(join_all(effects)),
    decreases effects.len(),
{
    if effects.len() > 0 {
        let init = effects.drop_last();
        lemma_join_all_is_max(init);
        if init.len() > 0 {
            let j = choose|j: int| 0 <= j < init.len() && init[j] == join_all(init);
            assert(effects[j] == init[j]);
        }
        assert(effects[effects.len() - 1] == effects.last());
        assert forall|i: int| 0 <= i < effects.len() implies effects[i].at_most(
            join_all(effects),
        ) by {
            if i < effects.len() - 1 {
                assert(effects[i] == init[i]);
            }
        }
    }
}

/// Join of a list of effects into their least upper bound; `Pure` for an
/// empty list.
pub fn effect_join(effects: &[Effect]) -> (r: Effect)
    ensures
        r == join_all(effects@),
        forall|i: int| 0 <= i < effects@.len() ==> effects@[i].at_most(r),
        effects@.len() == 0 ==> r == Effect::Pure,
        effects@.len() > 0 ==> effects@.contains(r),
{
    let mut acc = Effect::Pure;
    let mut i: usize = 0;
    while i < effects.len()
        invariant
            i <= effects@.len(),
            acc == join_all(effects@.take(i as int)),
        decreases effects.len() - i,
    {
        proof {
            assert(effects@.take(i as int + 1).drop_last() =~= effects@.take(i as int));
        }
        acc = acc.join(&effects[i]);
        i = i + 1;
    }
    proof {
        assert(effects@.take(i as int) =~= effects@);
        lemma_join_all_is_max(effects@);
    }
    acc
}

fn axis_satisfied(req: Option<u32>, prov: Option<u32>, more_is_fine: bool) -> (r: bool)
    ensures
        r == axis_met(req, prov, more_is_fine),
{
    match req {
        None => true,
        Some(r) => match prov {
            None => false,
            Some(p) => if more_is_fine { p >= r } else { p <= r },
        },
    }
}

/// Whether the provided budgets satisfy the required ones, axis by axis.
fn check_resource_budgets(required: &ResourceBudget, provided: &ResourceBudget) -> (r: bool)
    ensures
        r == budgets_met(*required, *provided),
{
    if !axis_satisfied(required.tokens, provided.tokens, true) {
        return false;
    }
    if !axis_satisfied(required.latency_ms, provided.latency_ms, false) {
        return false;
    }
    axis_satisfied(required.energy_mj, provided.energy_mj, false)
}

/// Whether `provided` satisfies `required`: its joined effect is at least as
/// permissive, and each budget axis is met in its own direction.
pub fn capability_subsumes(required: &Capability, provided: &Capability) -> (r: bool)
    ensures
        r == subsumed_by(required@, provided@),
{
    let required_effect = effect_join(required.effects.as_slice());
    let provided_effect = effect_join(provided.effects.as_slice());
    if !required_effect.subsumes(&provided_effect) {
        return false;
    }
    check_resource_budgets(&required.budgets, &provided.budgets)
}

/// The effects form a chain: of `a < b`, `a == b` and `b < a` exactly one
/// holds, `<` being the order that `partial_cmp` gives; the join is the
/// larger and the meet the smaller of the two.
pub proof fn lemma_effect_order_total(a: Effect, b: Effect)
    ensures
        (a.partial_cmp_spec(&b) == Some(Ordering::Less)) as int + (a == b) as int + (
        b.partial_cmp_spec(&a) == Some(Ordering::Less)) as int == 1,
        a.partial_cmp_spec(&b) == Some(Ordering::Less) <==> a.rank() < b.rank(),
        a.partial_cmp_spec(&b) == Some(Ordering::Equal) <==> a == b,
        a.at_most(b) ==> a.spec_join(b) == b && a.spec_meet(b) == a,
        b.at_most(a) ==> a.spec_join(b) == a && a.spec_meet(b) == b,
        a.spec_join(b) == b.spec_join(a),
        a.spec_meet(b) == b.spec_meet(a),
{
}

/// Every capability satisfies itself.
pub proof fn lemma_subsumes_reflexive(c: CapabilityView)
    ensures
        subsumed_by(c, c),
{
}

} // verus!
