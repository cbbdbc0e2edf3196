//! Counting references, and entering and leaving the scope of a function's
//! parameters.

use crate::ast::expression::{binders_model, Binder, FunctionBinder};
use crate::ast::name::{unqualified, Name, QualifiedName, QualifiedProperName, QualifiedText};
use crate::ast::types::duplicate_type;
use crate::result::{TypeError, Warning};
use crate::table::{Duplicate, Key, Table};
use crate::token::Span;
use crate::typechecker::env::{EnvValue, EnvValues};
use crate::typechecker::inference::{conflict, count_reference, enter, leave, Entered};
use crate::typechecker::limits::counts_within;
use crate::typechecker::pre_ast;
use crate::typechecker::scheme::Scheme;
use crate::typechecker::state::{counts, lemma_counts_insert, lemma_counts_remove, Run, State, ValueReferences};
use vstd::prelude::*;

verus! {

/// Count one more reference to the value `variable`.
pub fn count_value(state: &mut State, variable: &QualifiedName, Ghost(m): Ghost<nat>)
    requires
        old(state).wf(),
        old(state)@.counts_within(m),
        m < usize::MAX,
    ensures
        final(state).wf(),
        final(state)@ == (Run {
            value_references: count_reference(old(state)@.value_references, variable@),
            ..old(state)@
        }),
        final(state)@.counts_within(m + 1),
{
    let ghost before = state.value_references@;
    assert(counts(before).contains_key(variable@) == before.contains_key(variable@));
    let count: usize = match state.value_references.get(variable) {
        Some(count) => {
            assert(counts(before)[variable@] <= m);
            *count + 1
        },
        None => 1,
    };
    state.value_references.insert(variable.duplicate(), count);
    proof {
        lemma_counts_insert(before, variable@, count);
        assert forall|name: QualifiedText| #[trigger]
            state@.value_references.contains_key(name) implies state@.value_references[name] <= m
            + 1 by {
            if name != variable@ {
                assert(counts(before).contains_key(name));
            }
        }
        assert forall|name: QualifiedText| #[trigger]
            state@.constructor_references.contains_key(name) implies state@.constructor_references[name]
            <= m + 1 by {
            assert(old(state)@.constructor_references.contains_key(name));
        }
    }
}

/// Count one more reference to the constructor `constructor`.
pub fn count_constructor(state: &mut State, constructor: &QualifiedProperName, Ghost(m): Ghost<nat>)
    requires
        old(state).wf(),
        old(state)@.counts_within(m),
        m < usize::MAX,
    ensures
        final(state).wf(),
        final(state)@ == (Run {
            constructor_references: count_reference(
                old(state)@.constructor_references,
                constructor@,
            ),
            ..old(state)@
        }),
        final(state)@.counts_within(m + 1),
{
    let ghost before = state.constructor_references@;
    assert(counts(before).contains_key(constructor@) == before.contains_key(constructor@));
    let count: usize = match state.constructor_references.get(constructor) {
        Some(count) => {
            assert(counts(before)[constructor@] <= m);
            *count + 1
        },
        None => 1,
    };
    state.constructor_references.insert(constructor.duplicate(), count);
    proof {
        lemma_counts_insert(before, constructor@, count);
        assert forall|name: QualifiedText| #[trigger]
            state@.constructor_references.contains_key(name) implies state@.constructor_references[name]
            <= m + 1 by {
            if name != constructor@ {
                assert(counts(before).contains_key(name));
            }
        }
        assert forall|name: QualifiedText| #[trigger]
            state@.value_references.contains_key(name) implies state@.value_references[name] <= m
            + 1 by {
            assert(old(state)@.value_references.contains_key(name));
        }
    }
}

/// The span of the first of `binders` that is named `value`.
pub fn find_conflict(binders: &Vec<FunctionBinder>, value: &Name) -> (found: Option<Span>)
    ensures
        found == conflict(binders_model(binders@), value@),
{
    let ghost all = binders_model(binders@);
    let mut i: usize = 0;
    assert(all.skip(0) =~= all);
    while i < binders.len()
        invariant
            i <= binders.len(),
            all == binders_model(binders@),
            conflict(all, value@) == conflict(all.skip(i as int), value@),
        decreases binders.len() - i,
    {
        proof {
            assert(all.skip(i as int).drop_first() =~= all.skip(i + 1));
            assert(all.skip(i as int)[0] == all[i as int]);
        }
        match &binders[i] {
            FunctionBinder::Name { span, value: found_value, .. } => {
                if value.same(found_value) {
                    return Some(*span);
                }
            },
        }
        i += 1;
    }
    assert(all.skip(i as int).len() == 0);
    None
}

/// Enter the scope of a function's parameters: see [`enter`].
///
/// Hands back the parameters with their types, and the counts of the
/// references to the values that the parameters hide.
pub fn enter_parameters(
    values: &mut EnvValues,
    state: &mut State,
    pre_binders: &Vec<pre_ast::FunctionBinder>,
    Ghost(m): Ghost<nat>,
) -> (result: Result<(Vec<FunctionBinder>, ValueReferences), TypeError>)
    requires
        old(values).wf(),
        old(state).wf(),
        old(state)@.supply + pre_binders@.len() <= usize::MAX,
        old(state)@.counts_within(m),
    ensures
        final(values).wf(),
        final(state).wf(),
        final(state)@.supply <= old(state)@.supply + pre_binders@.len(),
        final(state)@.counts_within(m),
        forall|name: QualifiedText| #[trigger]
            final(values)@.contains_key(name) ==> (old(values)@.contains_key(name)
                && final(values)@[name] == old(values)@[name])
                || final(values)@[name].scheme().forall.len() == 0,
        ({
            let entered = enter(
                Entered {
                    values: old(values)@,
                    run: old(state)@,
                    saved: Map::empty(),
                    binders: Seq::empty(),
                    failure: None,
                },
                pre_binders@,
                0,
            );
            &&& final(state)@ == entered.run
            &&& match result {
                Ok((binders, saved)) => {
                    &&& entered.failure is None
                    &&& final(values)@ == entered.values
                    &&& binders_model(binders@) == entered.binders
                    &&& saved.wf()
                    &&& counts(saved@) == entered.saved
                    &&& counts_within(counts(saved@), m)
                },
                Err(e) => entered.failure == Some(e@),
            }
        }),
{
    let ghost start = Entered {
        values: values@,
        run: state@,
        saved: Map::empty(),
        binders: Seq::empty(),
        failure: None,
    };
    let ghost wanted = enter(start, pre_binders@, 0);
    let mut binders: Vec<FunctionBinder> = Vec::new();
    let mut saved: ValueReferences = Table::new();
    let mut i: usize = 0;
    proof {
        assert(counts(saved@) =~= Map::<QualifiedText, nat>::empty());
        assert(binders_model(binders@) =~= Seq::<Binder>::empty());
    }
    while i < pre_binders.len()
        invariant
            i <= pre_binders.len(),
            values.wf(),
            state.wf(),
            saved.wf(),
            wanted == enter(
                Entered {
                    values: old(values)@,
                    run: old(state)@,
                    saved: Map::empty(),
                    binders: Seq::empty(),
                    failure: None,
                },
                pre_binders@,
                0,
            ),
            enter(
                Entered {
                    values: values@,
                    run: state@,
                    saved: counts(saved@),
                    binders: binders_model(binders@),
                    failure: None,
                },
                pre_binders@,
                i as nat,
            ) == wanted,
            old(state)@.supply + pre_binders@.len() <= usize::MAX,
            state@.supply <= old(state)@.supply + i,
            state@.counts_within(m),
            counts_within(counts(saved@), m),
            forall|name: QualifiedText| #[trigger]
                values@.contains_key(name) ==> (old(values)@.contains_key(name) && values@[name]
                    == old(values)@[name]) || values@[name].scheme().forall.len() == 0,
        decreases pre_binders.len() - i,
    {
        let ghost current = Entered {
            values: values@,
            run: state@,
            saved: counts(saved@),
            binders: binders_model(binders@),
            failure: None,
        };
        match &pre_binders[i] {
            pre_ast::FunctionBinder::Name { span, type_annotation, value } => {
                // Check this binder doesn't conflict with existing binders
                if let Some(previous_binder) = find_conflict(&binders, value) {
                    return Err(
                        TypeError::DuplicateFunctionBinder {
                            previous_binder,
                            duplicate_binder: *span,
                        },
                    );
                }
                let binder_type = match type_annotation {
                    Some(annotation) => duplicate_type(annotation),
                    None => state.supply.fresh_type(),
                };
                let qualified_name = unqualified(value.duplicate());
                let ghost name = qualified_name@;
                let ghost held = state.value_references@;
                let ghost kept = saved@;
                assert(counts(held).contains_key(name) == held.contains_key(name));
                if let Some(count) = state.value_references.remove(&qualified_name) {
                    assert(counts(held)[name] <= m);
                    saved.insert(qualified_name.duplicate(), count);
                    state.value_references.insert(qualified_name.duplicate(), 0);
                    proof {
                        lemma_counts_insert(kept, name, count);
                        lemma_counts_insert(held.remove(name), name, 0);
                        assert(held.remove(name).insert(name, 0usize) =~= held.insert(name, 0usize));
                        lemma_counts_insert(held, name, 0);
                    }
                } else {
                    assert(state.value_references@ =~= held);
                }
                proof {
                    assert forall|other: QualifiedText| #[trigger]
                        state@.value_references.contains_key(other)
                        implies state@.value_references[other] <= m by {
                        if other != name {
                            assert(counts(held).contains_key(other));
                        }
                    }
                    assert forall|other: QualifiedText| #[trigger]
                        counts(saved@).contains_key(other) implies counts(saved@)[other] <= m by {
                        if other != name {
                            assert(counts(kept).contains_key(other));
                        }
                    }
                }
                values.insert(
                    qualified_name,
                    EnvValue::ModuleValue {
                        span: *span,
                        variable_scheme: Scheme::plain(duplicate_type(&binder_type)),
                        variable: value.duplicate(),
                    },
                );
                let ghost done = binders_model(binders@);
                binders.push(
                    FunctionBinder::Name { span: *span, binder_type, value: value.duplicate() },
                );
                proof {
                    assert(binders_model(binders@) =~= done.push(
                        Binder { span: *span, binder_type: binder_type@, value: value@ },
                    ));
                    assert(pre_binders@[i as int].name() == value@);
                    assert(pre_binders@[i as int].span() == *span);
                }
            },
        }
        i += 1;
    }
    Ok((binders, saved))
}

/// Leave the scope of a function's parameters: see [`leave`].
pub fn leave_parameters(state: &mut State, binders: &Vec<FunctionBinder>, Ghost(m): Ghost<nat>)
    requires
        old(state).wf(),
        old(state)@.counts_within(m),
    ensures
        final(state).wf(),
        final(state)@ == leave(old(state)@, binders_model(binders@), 0),
        final(state)@.counts_within(m),
        final(state)@.supply == old(state)@.supply,
        final(state)@.bindings == old(state)@.bindings,
{
    let ghost wanted = leave(state@, binders_model(binders@), 0);
    let ghost all = binders_model(binders@);
    let mut i: usize = 0;
    while i < binders.len()
        invariant
            i <= binders.len(),
            all == binders_model(binders@),
            state.wf(),
            state@.counts_within(m),
            state@.supply == old(state)@.supply,
            state@.bindings == old(state)@.bindings,
            leave(state@, all, i as nat) == wanted,
        decreases binders.len() - i,
    {
        match &binders[i] {
            FunctionBinder::Name { span, value, .. } => {
                let qualified_name = unqualified(value.duplicate());
                let ghost name = qualified_name@;
                let ghost held = state.value_references@;
                assert(counts(held).contains_key(name) == held.contains_key(name));
                let used = match state.value_references.get(&qualified_name) {
                    Some(count) => *count > 0,
                    None => false,
                };
                if used {
                    state.value_references.remove(&qualified_name);
                    proof {
                        lemma_counts_remove(held, name);
                        assert forall|other: QualifiedText| #[trigger]
                            state@.value_references.contains_key(other)
                            implies state@.value_references[other] <= m by {
                            assert(counts(held).contains_key(other));
                        }
                    }
                } else {
                    let ghost before = state.warnings@;
                    state.warnings.push(Warning::UnusedFunctionBinder { span: *span });
                    assert(state.warnings@ == before.push(
                        Warning::UnusedFunctionBinder { span: *span },
                    ));
                }
            },
        }
        i += 1;
    }
}

} // verus!
