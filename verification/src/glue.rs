use vstd::prelude::*;
use crate::data::{ParamLiteral, Payload, Statement, StatementPlan, StatementView};
use crate::error::{Error, Result};
use crate::executor::execute::{execute, executes};
use crate::store::{GStore, GStoreMut, Planner};
use crate::trace;
use crate::translate::{bind_statement, translate_with_params};

verus! {

/// Whether running `plans` in order from `before`, with the outcomes `payloads`, may
/// leave the storage as `after`: there is a storage state after each statement.
pub open spec fn runs_all<T: GStore + GStoreMut>(before: T, plans: Seq<StatementView>, payloads: Seq<Payload>, after: T) -> bool {
    exists|states: Seq<T>| {
        &&& states.len() == plans.len() + 1
        &&& states[0] == before
        &&& states.last() == after
        &&& payloads.len() == plans.len()
        &&& forall|i: int| 0 <= i < plans.len() ==> #[trigger] executes(states[i], plans[i], Ok::<Payload, Error>(payloads[i]), states[i + 1])
    }
}

/// Whether running `plans` in order from `before` may stop with `error` at statement `k`,
/// after the statements before it succeeded, and leave the storage as `after`.
pub open spec fn stops_at<T: GStore + GStoreMut>(before: T, plans: Seq<StatementView>, k: int, error: Error, after: T) -> bool {
    0 <= k < plans.len() && exists|states: Seq<T>, payloads: Seq<Payload>| {
        &&& states.len() == k + 2
        &&& states[0] == before
        &&& states.last() == after
        &&& payloads.len() == k
        &&& (forall|i: int| 0 <= i < k ==> #[trigger] executes(states[i], plans[i], Ok::<Payload, Error>(payloads[i]), states[i + 1]))
        &&& executes(states[k], plans[k], Err::<Payload, Error>(error), states[k + 1])
    }
}

/// Whether `plans` are what the storage's planner may make of `statements` with their
/// parameters bound to `params`, statement by statement.
pub open spec fn plans_for<T: Planner>(
    storage: T,
    statements: Seq<Statement>,
    params: Seq<ParamLiteral>,
    plans: Seq<StatementView>,
) -> bool {
    &&& plans.len() == statements.len()
    &&& forall|i: int| 0 <= i < statements.len() ==>
        ((#[trigger] bind_statement(statements[i]@, params)) matches Ok(bound)
            && (plans[i] == bound || storage.rewrites_to(bound, plans[i])))
}

/// Whether planning `statements` with `params` may stop at statement `k` with `error`:
/// every earlier statement binds, and statement `k` fails to bind with `error`, or binds
/// and the planner may fail on it with `error`.
pub open spec fn planning_fails_at<T: Planner>(
    storage: T,
    statements: Seq<Statement>,
    params: Seq<ParamLiteral>,
    k: int,
    error: Error,
) -> bool {
    &&& 0 <= k < statements.len()
    &&& forall|m: int| 0 <= m < k ==> (#[trigger] bind_statement(statements[m]@, params)) is Ok
    &&& match bind_statement(statements[k]@, params) {
        Err(e) => e == error,
        Ok(bound) => storage.plan_fails_with(bound, error),
    }
}

/// Whether the storage's planner fails on no statement.
pub open spec fn planner_never_fails<T: Planner>(storage: T) -> bool {
    forall|s: StatementView, e: Error| !#[trigger] storage.plan_fails_with(s, e)
}

/// Whether every statement binds its parameters.
pub open spec fn all_bind(statements: Seq<Statement>, params: Seq<ParamLiteral>) -> bool {
    forall|i: int| 0 <= i < statements.len() ==> (#[trigger] bind_statement(statements[i]@, params)) is Ok
}

/// The plans of a planning outcome, by their views.
pub open spec fn planned_views(r: Result<Vec<StatementPlan>>) -> Result<Seq<StatementView>> {
    match r {
        Ok(plans) => Ok(plan_views(plans@)),
        Err(e) => Err(e),
    }
}

/// What planning `statements` with `params` on `storage` may give: on success one plan
/// per statement, each the planner's answer to the bound statement; on failure the error
/// of the first statement that fails to bind or to plan. Planning succeeds where every
/// statement binds and the planner never fails; a binding that fails at the first
/// statement is the error.
pub open spec fn plans_outcome<T: Planner>(
    storage: T,
    statements: Seq<Statement>,
    params: Seq<ParamLiteral>,
    r: Result<Seq<StatementView>>,
) -> bool {
    &&& r matches Ok(plans) ==> plans_for(storage, statements, params, plans)
    &&& r matches Err(e) ==> exists|k: int| #[trigger] planning_fails_at(storage, statements, params, k, e)
    &&& planner_never_fails(storage) && all_bind(statements, params) ==> r is Ok
    &&& !all_bind(statements, params) ==> r is Err
    &&& statements.len() > 0 ==> (bind_statement(statements[0]@, params) matches Err(e) ==> r == Err::<Seq<StatementView>, Error>(e))
    &&& statements.len() == 0 ==> r == Ok::<Seq<StatementView>, Error>(Seq::empty())
}

/// Whether `statements`, with their parameters bound to `params` and planned by the
/// storage, then run in order from `before`, may give the outcomes `payloads` and leave
/// the storage as `after`.
pub open spec fn runs_planned<T: GStore + GStoreMut + Planner>(
    before: T,
    statements: Seq<Statement>,
    params: Seq<ParamLiteral>,
    payloads: Seq<Payload>,
    after: T,
) -> bool {
    exists|plans: Seq<StatementView>| plans_for(before, statements, params, plans) && #[trigger] runs_all(before, plans, payloads, after)
}

/// Whether `statements`, bound and planned as above, then run in order from `before`, may
/// stop with `error` at one of them and leave the storage as `after`.
pub open spec fn stops_planned<T: GStore + GStoreMut + Planner>(
    before: T,
    statements: Seq<Statement>,
    params: Seq<ParamLiteral>,
    error: Error,
    after: T,
) -> bool {
    exists|plans: Seq<StatementView>, k: int| plans_for(before, statements, params, plans) && #[trigger] stops_at(before, plans, k, error, after)
}

/// What planning `statements` with `params` and then running the plans in order on
/// `before` may return as `r` and leave as `after`. All statements are planned before
/// any runs, so a failure to bind or to plan leaves the storage as it was and is the
/// error of the first statement that fails; otherwise the statements run in order and
/// the first execution error stops them, the effects of the earlier ones kept.
pub open spec fn executes_all<T: GStore + GStoreMut + Planner>(
    before: T,
    statements: Seq<Statement>,
    params: Seq<ParamLiteral>,
    r: Result<Vec<Payload>>,
    after: T,
) -> bool {
    &&& r matches Ok(payloads) ==> {
        &&& payloads.len() == statements.len()
        &&& runs_planned(before, statements, params, payloads@, after)
    }
    &&& !all_bind(statements, params) ==> r is Err && after == before
    &&& statements.len() > 0 ==> (bind_statement(statements[0]@, params) matches Err(e)
        ==> r == Err::<Vec<Payload>, Error>(e) && after == before)
    &&& r matches Err(e) ==> {
        ||| after == before && exists|k: int| #[trigger] planning_fails_at(before, statements, params, k, e)
        ||| stops_planned(before, statements, params, e, after)
    }
    &&& planner_never_fails(before) && all_bind(statements, params) ==> (r matches Err(e)
        ==> stops_planned(before, statements, params, e, after))
    &&& statements.len() == 0 ==> (r matches Ok(payloads) && payloads.len() == 0 && after == before)
}

/// The statement views of a list of plans.
pub open spec fn plan_views(plans: Seq<StatementPlan>) -> Seq<StatementView> {
    plans.map_values(|p: StatementPlan| p.statement@)
}

/// The entry point: plans and executes statements on a storage.
pub struct Glue<T: GStore + GStoreMut + Planner> {
    pub storage: T,
}

impl<T: GStore + GStoreMut + Planner> Glue<T> {
    pub fn new(storage: T) -> (glue: Self)
        ensures
            glue.storage == storage,
    {
        Self { storage }
    }

    fn plan_statement(&self, statement: StatementPlan) -> (r: Result<StatementPlan>)
        ensures
            r matches Ok(p) ==> p.statement@ == statement.statement@ || self.storage.rewrites_to(statement.statement@, p.statement@),
            r matches Err(e) ==> self.storage.plan_fails_with(statement.statement@, e),
            (forall|e: Error| !#[trigger] self.storage.plan_fails_with(statement.statement@, e)) ==> r is Ok,
    {
        trace::plan(&self.storage, statement)
    }

    /// Binds the parameters of each statement and has the storage plan it, in order,
    /// stopping at the first failure.
    fn plan_param_literals(&self, statements: &[Statement], params: &[ParamLiteral]) -> (r: Result<Vec<StatementPlan>>)
        ensures
            plans_outcome(self.storage, statements@, params@, planned_views(r)),
    {
        let mut plans: Vec<StatementPlan> = Vec::new();
        let mut i: usize = 0;
        while i < statements.len()
            invariant
                i <= statements.len(),
                plans.len() == i,
                forall|k: int| 0 <= k < i ==>
                    ((#[trigger] bind_statement(statements@[k]@, params@)) matches Ok(bound)
                    && (plans@[k].statement@ == bound || self.storage.rewrites_to(bound, plans@[k].statement@))),
            decreases statements.len() - i,
        {
            let statement = match translate_with_params(&statements[i], params) {
                Ok(s) => s,
                Err(e) => {
                    proof {
                        assert(planning_fails_at(self.storage, statements@, params@, i as int, e));
                        assert(!all_bind(statements@, params@));
                        if i > 0 {
                            assert(bind_statement(statements@[0]@, params@) is Ok);
                        }
                    }
                    return Err(e);
                },
            };
            let plan = match self.plan_statement(StatementPlan { statement }) {
                Ok(p) => p,
                Err(e) => {
                    proof {
                        assert(planning_fails_at(self.storage, statements@, params@, i as int, e));
                        if i > 0 {
                            assert(bind_statement(statements@[0]@, params@) is Ok);
                        }
                        if planner_never_fails(self.storage) {
                            assert(!self.storage.plan_fails_with(statement@, e));
                        }
                        if !all_bind(statements@, params@) {
                            let j = choose|j: int| 0 <= j < statements.len() && (#[trigger] bind_statement(statements@[j]@, params@)) is Err;
                            assert(j > i);
                        }
                    }
                    return Err(e);
                },
            };
            plans.push(plan);
            i = i + 1;
        }
        proof {
            assert(plans_for(self.storage, statements@, params@, plan_views(plans@)));
            assert(all_bind(statements@, params@));
            if statements.len() == 0 {
                assert(plan_views(plans@) =~= Seq::<StatementView>::empty());
            }
        }
        Ok(plans)
    }

    /// Plans all statements using the supplied parameters.
    pub fn plan_with_params(&mut self, statements: &[Statement], params: Vec<ParamLiteral>) -> (r: Result<Vec<StatementPlan>>)
        ensures
            final(self).storage == old(self).storage,
            plans_outcome(old(self).storage, statements@, params@, planned_views(r)),
    {
        self.plan_param_literals(statements, params.as_slice())
    }

    /// Plans all statements without parameters.
    pub fn plan(&mut self, statements: &[Statement]) -> (r: Result<Vec<StatementPlan>>)
        ensures
            final(self).storage == old(self).storage,
            plans_outcome(old(self).storage, statements@, Seq::<ParamLiteral>::empty(), planned_views(r)),
    {
        let params: Vec<ParamLiteral> = Vec::new();
        assert(params@ =~= Seq::<ParamLiteral>::empty());
        self.plan_with_params(statements, params)
    }

    /// Executes one planned statement.
    pub fn execute_stmt(&mut self, statement: &StatementPlan) -> (r: Result<Payload>)
        ensures
            executes(old(self).storage, statement.statement@, r, final(self).storage),
    {
        execute(&mut self.storage, statement)
    }

    /// Plans all statements with the supplied parameters, then executes them in order,
    /// stopping at the first failure.
    pub fn execute_with_params(&mut self, statements: &[Statement], params: Vec<ParamLiteral>) -> (r: Result<Vec<Payload>>)
        ensures
            executes_all(old(self).storage, statements@, params@, r, final(self).storage),
    {
        let plans = match self.plan_param_literals(statements, params.as_slice()) {
            Ok(plans) => plans,
            Err(e) => {
                return Err(e);
            },
        };
        let ghost start = self.storage;
        let ghost mut states: Seq<T> = seq![self.storage];
        let mut payloads: Vec<Payload> = Vec::new();
        let mut i: usize = 0;
        while i < plans.len()
            invariant
                i <= plans.len(),
                plans.len() == statements.len(),
                plans_for(start, statements@, params@, plan_views(plans@)),
                start == old(self).storage,
                payloads.len() == i,
                states.len() == i + 1,
                states[0] == start,
                states.last() == self.storage,
                forall|k: int| 0 <= k < i ==> #[trigger] executes(states[k], plan_views(plans@)[k], Ok::<Payload, Error>(payloads@[k]), states[k + 1]),
            decreases plans.len() - i,
        {
            let ghost before = self.storage;
            let result = self.execute_stmt(&plans[i]);
            match result {
                Ok(payload) => {
                    payloads.push(payload);
                    proof {
                        states = states.push(self.storage);
                    }
                },
                Err(e) => {
                    proof {
                        let st = states.push(self.storage);
                        let ps = payloads@;
                        assert(stops_at(start, plan_views(plans@), i as int, e, self.storage)) by {
                            assert(st.len() == i + 2);
                            assert forall|k: int| 0 <= k < i implies #[trigger] executes(st[k], plan_views(plans@)[k], Ok::<Payload, Error>(ps[k]), st[k + 1]) by {
                                assert(st[k] == states[k]);
                                assert(st[k + 1] == states[k + 1]);
                            }
                        }
                        assert(stops_planned(old(self).storage, statements@, params@, e, self.storage));
                    }
                    return Err(e);
                },
            }
            i = i + 1;
        }
        assert(runs_all(old(self).storage, plan_views(plans@), payloads@, self.storage)) by {
            assert(states.len() == plan_views(plans@).len() + 1);
        }
        assert(runs_planned(old(self).storage, statements@, params@, payloads@, self.storage));
        Ok(payloads)
    }

    /// Executes all statements without parameters.
    pub fn execute(&mut self, statements: &[Statement]) -> (r: Result<Vec<Payload>>)
        ensures
            executes_all(old(self).storage, statements@, Seq::<ParamLiteral>::empty(), r, final(self).storage),
    {
        let params: Vec<ParamLiteral> = Vec::new();
        assert(params@ =~= Seq::<ParamLiteral>::empty());
        self.execute_with_params(statements, params)
    }
}

} // verus!
