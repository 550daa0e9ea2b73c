//! The workflow executor.
//!
//! A workflow is a named, ordered, immutable plan of actions. Running it
//! executes every action in declared order against one fresh context, and
//! never stops early: a `Failed` or `Skipped` status is recorded like any
//! other and the run proceeds. The final accumulated output mapping is
//! handed back to the caller.

use crate::action::Action;
use crate::context::{Context, Outputs};
use vstd::prelude::*;

verus! {

/// The names under which a plan's outputs end up recorded: each action's
/// name, in declared order, kept at its first occurrence.
pub open spec fn planned_names<A: Action>(actions: Seq<A>) -> Seq<Seq<char>>
    decreases actions.len(),
{
    if actions.len() == 0 {
        Seq::<Seq<char>>::empty()
    } else {
        let prev = planned_names(actions.drop_last());
        if prev.contains(actions.last().name_spec()) {
            prev
        } else {
            prev.push(actions.last().name_spec())
        }
    }
}

/// Law: when the planned actions carry pairwise distinct names — the
/// ordinary shape of a plan — the run records exactly one output per
/// action, under the i-th action's name at position i.
pub proof fn lemma_planned_names_distinct<A: Action>(actions: Seq<A>)
    requires
        forall|i: int, j: int|
            0 <= i < j < actions.len() ==> actions[i].name_spec() != actions[j].name_spec(),
    ensures
        planned_names(actions) == Seq::new(actions.len(), |i: int| actions[i].name_spec()),
    decreases actions.len(),
{
    if actions.len() > 0 {
        lemma_planned_names_distinct(actions.drop_last());
        let prev = planned_names(actions.drop_last());
        let nm = actions.last().name_spec();
        assert(!prev.contains(nm)) by {
            if prev.contains(nm) {
                let i = choose|i: int| 0 <= i < prev.len() && prev[i] == nm;
                assert(actions.drop_last()[i].name_spec() == nm);
                assert(actions[i].name_spec() == actions[actions.len() - 1].name_spec());
            }
        }
        assert(planned_names(actions) =~= Seq::new(
            actions.len(),
            |i: int| actions[i].name_spec(),
        ));
    } else {
        assert(planned_names(actions) =~= Seq::new(
            actions.len(),
            |i: int| actions[i].name_spec(),
        ));
    }
}

/// A named, ordered plan of actions.
pub struct Workflow<A> {
    name: String,
    actions: Vec<A>,
}

impl<A: Action> Workflow<A> {
    /// The workflow's name.
    pub closed spec fn name_spec(self) -> Seq<char> {
        self.name@
    }

    /// The planned actions, in declared order.
    pub closed spec fn actions_spec(self) -> Seq<A> {
        self.actions@
    }

    /// A workflow with no actions yet.
    pub fn new(name: String) -> (r: Self)
        ensures
            r.name_spec() == name@,
            r.actions_spec() == Seq::<A>::empty(),
    {
        Workflow { name, actions: Vec::new() }
    }

    /// Replaces the plan; builder-style, chainable.
    pub fn with_actions(self, actions: Vec<A>) -> (r: Self)
        ensures
            r.name_spec() == self.name_spec(),
            r.actions_spec() == actions@,
    {
        let mut w = self;
        w.actions = actions;
        w
    }

    /// The workflow's name.
    pub fn name(&self) -> (r: &str)
        ensures
            r@ == self.name_spec(),
    {
        self.name.as_str()
    }

    /// Read access to the plan.
    pub fn actions(&self) -> (r: &Vec<A>)
        ensures
            r@ == self.actions_spec(),
    {
        &self.actions
    }

    /// Runs every action in declared order against one fresh context and
    /// returns the accumulated outputs: one well-formed entry per planned
    /// action name, in execution order, regardless of any action's status.
    ///
    /// The entry under each name is what its action handed back: for every
    /// action that no later action shadows, the recorded output is an
    /// outcome that the action's own `run` contract admits, for some
    /// context it was handed.
    pub fn run(&self) -> (r: Outputs)
        ensures
            r.inv(),
            forall|k: Seq<char>| #[trigger] r@.contains_key(k) ==> r@[k].inv(),
            r.keys() == planned_names(self.actions_spec()),
            forall|k: Seq<char>|
                r@.contains_key(k) <==> planned_names(self.actions_spec()).contains(k),
            forall|i: int|
                #![trigger self.actions_spec()[i]]
                0 <= i < self.actions_spec().len() && (forall|j: int|
                    i < j < self.actions_spec().len()
                        ==> self.actions_spec()[j].name_spec()
                        != self.actions_spec()[i].name_spec()) ==> exists|c: Context|
                    call_ensures(
                        <A as Action>::run,
                        (&self.actions_spec()[i], &c),
                        r@[self.actions_spec()[i].name_spec()],
                    ),
    {
        let mut ctx = Context::new(self.name.as_str());
        let n = self.actions.len();
        let mut i: usize = 0;
        while i < n
            invariant
                i <= n,
                n == self.actions@.len(),
                ctx.inv(),
                ctx.names() == planned_names(self.actions@.take(i as int)),
                forall|p: int|
                    #![trigger self.actions@[p]]
                    0 <= p < i && (forall|j: int|
                        p < j < i ==> self.actions@[j].name_spec()
                            != self.actions@[p].name_spec()) ==> exists|c: Context|
                        call_ensures(
                            <A as Action>::run,
                            (&self.actions@[p], &c),
                            ctx.outputs_spec()[self.actions@[p].name_spec()],
                        ),
            decreases n - i,
        {
            let action = &self.actions[i];
            let action_name = action.name();
            proof {
                ctx.lemma_names_view();
            }
            let ghost ctx_before = ctx;
            let ghost pre = ctx.outputs_spec();
            let output = action.run(&ctx);
            ctx.update(action_name, output);
            proof {
                assert(self.actions@.take(i + 1).drop_last() =~= self.actions@.take(i as int));
                assert(self.actions@.take(i + 1).last() == self.actions@[i as int]);
                assert forall|p: int|
                    #![trigger self.actions@[p]]
                    0 <= p < i + 1 && (forall|j: int|
                        p < j < i + 1 ==> self.actions@[j].name_spec()
                            != self.actions@[p].name_spec()) implies exists|c: Context|
                    call_ensures(
                        <A as Action>::run,
                        (&self.actions@[p], &c),
                        ctx.outputs_spec()[self.actions@[p].name_spec()],
                    ) by {
                    if p == i {
                        assert(call_ensures(
                            <A as Action>::run,
                            (&self.actions@[p], &ctx_before),
                            output,
                        ));
                        assert(ctx.outputs_spec()[self.actions@[p].name_spec()] == output);
                    } else {
                        assert(self.actions@[i as int].name_spec()
                            != self.actions@[p].name_spec());
                        let c0 = choose|c: Context|
                            call_ensures(
                                <A as Action>::run,
                                (&self.actions@[p], &c),
                                pre[self.actions@[p].name_spec()],
                            );
                        assert(ctx.outputs_spec()[self.actions@[p].name_spec()]
                            == pre[self.actions@[p].name_spec()]);
                        assert(call_ensures(
                            <A as Action>::run,
                            (&self.actions@[p], &c0),
                            ctx.outputs_spec()[self.actions@[p].name_spec()],
                        ));
                    }
                }
            }
            i += 1;
        }
        proof {
            assert(self.actions@.take(n as int) =~= self.actions@);
            ctx.lemma_names_view();
        }
        let outputs = ctx.take_outputs();
        proof {
            outputs.lemma_keys_view();
        }
        outputs
    }
}

} // verus!
