//! Combining per-policy verdicts into one decision.
//!
//! A policy that is satisfied contributes its effect. Any satisfied forbid
//! policy denies the request; otherwise any satisfied permit policy allows it;
//! otherwise the request is denied by default.

use vstd::prelude::*;
use crate::model::{texts, error_views, AuthError, CedarResult, Decision, Effect, ErrorView, ResultView};

verus! {

/// How one policy fared against one request.
#[derive(Debug)]
pub enum Outcome {
    /// Scope and conditions all hold.
    Satisfied,
    /// The policy does not apply.
    NotSatisfied,
    /// Evaluation failed; the policy is treated as not applying. This holds
    /// wherever in the policy the error arose, in a `when` clause as in an
    /// `unless` clause, and for a forbid policy as for a permit policy: the
    /// policy is skipped and the error recorded.
    Errored { detail: String },
}

/// The mathematical content of an [`Outcome`].
pub enum OutcomeView {
    Satisfied,
    NotSatisfied,
    Errored { detail: Seq<char> },
}

impl View for Outcome {
    type V = OutcomeView;

    open spec fn view(&self) -> OutcomeView {
        match *self {
            Outcome::Satisfied => OutcomeView::Satisfied,
            Outcome::NotSatisfied => OutcomeView::NotSatisfied,
            Outcome::Errored { detail } => OutcomeView::Errored { detail: detail@ },
        }
    }
}

/// One policy's id and effect together with how it fared.
#[derive(Debug)]
pub struct Verdict {
    pub policy_id: String,
    pub effect: Effect,
    pub outcome: Outcome,
}

/// The mathematical content of a [`Verdict`].
pub struct VerdictView {
    pub policy_id: Seq<char>,
    pub effect: Effect,
    pub outcome: OutcomeView,
}

impl View for Verdict {
    type V = VerdictView;

    open spec fn view(&self) -> VerdictView {
        VerdictView { policy_id: self.policy_id@, effect: self.effect, outcome: self.outcome@ }
    }
}

/// The contents of a sequence of verdicts, in the same order.
pub open spec fn verdict_views(verdicts: Seq<Verdict>) -> Seq<VerdictView> {
    verdicts.map_values(|v: Verdict| v@)
}

/// Selects the id of a verdict that is satisfied with the given effect.
pub open spec fn satisfied_with(effect: Effect) -> spec_fn(VerdictView) -> Option<Seq<char>> {
    |v: VerdictView|
        if v.effect == effect && v.outcome is Satisfied {
            Some(v.policy_id)
        } else {
            None
        }
}

/// Selects the evaluation error of a verdict that failed.
pub open spec fn failure_of() -> spec_fn(VerdictView) -> Option<ErrorView> {
    |v: VerdictView|
        match v.outcome {
            OutcomeView::Errored { detail } => Some(
                ErrorView::Evaluation { policy_id: v.policy_id, detail },
            ),
            _ => None,
        }
}

/// Ids of the verdicts satisfied with `effect`, in declaration order.
pub open spec fn satisfied_ids(verdicts: Seq<VerdictView>, effect: Effect) -> Seq<Seq<char>> {
    verdicts.filter_map(satisfied_with(effect))
}

/// The evaluation errors among the verdicts, in declaration order.
pub open spec fn evaluation_errors(verdicts: Seq<VerdictView>) -> Seq<ErrorView> {
    verdicts.filter_map(failure_of())
}

/// The decision and diagnostics that a sequence of verdicts determines.
pub open spec fn combine_spec(verdicts: Seq<VerdictView>) -> ResultView {
    let forbids = satisfied_ids(verdicts, Effect::Forbid);
    let permits = satisfied_ids(verdicts, Effect::Permit);
    let errors = evaluation_errors(verdicts);
    if forbids.len() > 0 {
        ResultView { decision: Decision::Deny, determining: forbids, shadowed: permits, errors }
    } else if permits.len() > 0 {
        ResultView {
            decision: Decision::Allow,
            determining: permits,
            shadowed: Seq::empty(),
            errors,
        }
    } else {
        ResultView {
            decision: Decision::Deny,
            determining: Seq::empty(),
            shadowed: Seq::empty(),
            errors,
        }
    }
}

/// Combines the verdicts of all policies of a set, given in declaration order.
pub fn combine(verdicts: &Vec<Verdict>) -> (r: CedarResult)
    ensures
        r@ == combine_spec(verdict_views(verdicts@)),
{
    let ghost all = verdict_views(verdicts@);
    let mut forbids: Vec<String> = Vec::new();
    let mut permits: Vec<String> = Vec::new();
    let mut errors: Vec<AuthError> = Vec::new();
    let mut i: usize = 0;
    while i < verdicts.len()
        invariant
            i <= verdicts.len(),
            all == verdict_views(verdicts@),
            texts(forbids@) == satisfied_ids(all.take(i as int), Effect::Forbid),
            texts(permits@) == satisfied_ids(all.take(i as int), Effect::Permit),
            error_views(errors@) == evaluation_errors(all.take(i as int)),
        decreases verdicts.len() - i,
    {
        let v = &verdicts[i];
        proof {
            all.lemma_filter_map_take_succ(satisfied_with(Effect::Forbid), i as int);
            all.lemma_filter_map_take_succ(satisfied_with(Effect::Permit), i as int);
            all.lemma_filter_map_take_succ(failure_of(), i as int);
        }
        match &v.outcome {
            Outcome::Satisfied => {
                match v.effect {
                    Effect::Forbid => {
                        forbids.push(v.policy_id.clone());
                    },
                    Effect::Permit => {
                        permits.push(v.policy_id.clone());
                    },
                }
            },
            Outcome::NotSatisfied => {},
            Outcome::Errored { detail } => {
                errors.push(
                    AuthError::Evaluation {
                        policy_id: v.policy_id.clone(),
                        detail: detail.clone(),
                    },
                );
            },
        }
        i += 1;
    }
    assert(all.take(verdicts.len() as int) == all);
    let none: Vec<String> = Vec::new();
    let nothing: Vec<String> = Vec::new();
    assert(texts(none@) =~= Seq::empty());
    if forbids.len() > 0 {
        CedarResult {
            result: Decision::Deny,
            determining_policy_ids: forbids,
            shadowed_policy_ids: permits,
            errors,
        }
    } else if permits.len() > 0 {
        CedarResult {
            result: Decision::Allow,
            determining_policy_ids: permits,
            shadowed_policy_ids: none,
            errors,
        }
    } else {
        CedarResult {
            result: Decision::Deny,
            determining_policy_ids: none,
            shadowed_policy_ids: nothing,
            errors,
        }
    }
}

/// Whatever a selection yields for some element of a sequence occurs among
/// the values selected from the whole sequence.
proof fn lemma_selected_occurs<A, B>(s: Seq<A>, f: spec_fn(A) -> Option<B>, i: int)
    requires
        0 <= i < s.len(),
        f(s[i]) is Some,
    ensures
        s.filter_map(f).contains(f(s[i])->0),
    decreases s.len(),
{
    let rest = s.drop_last();
    let tail = match f(s.last()) {
        Some(b) => seq![b],
        None => Seq::empty(),
    };
    if i == s.len() - 1 {
        let at = rest.filter_map(f).len() as int;
        assert((rest.filter_map(f) + tail)[at] == f(s[i])->0);
    } else {
        lemma_selected_occurs(rest, f, i);
        let at = choose|k: int|
            0 <= k < rest.filter_map(f).len() && rest.filter_map(f)[k] == f(s[i])->0;
        assert((rest.filter_map(f) + tail)[at] == f(s[i])->0);
    }
}

/// A selection that rejects every element yields nothing.
proof fn lemma_nothing_selected<A, B>(s: Seq<A>, f: spec_fn(A) -> Option<B>)
    requires
        forall|i: int| 0 <= i < s.len() ==> f(#[trigger] s[i]) is None,
    ensures
        s.filter_map(f).len() == 0,
    decreases s.len(),
{
    if s.len() > 0 {
        let rest = s.drop_last();
        assert forall|i: int| 0 <= i < rest.len() implies f(#[trigger] rest[i]) is None by {
            assert(rest[i] == s[i]);
        }
        lemma_nothing_selected(rest, f);
    }
}

/// Default deny: when no policy is satisfied the decision is `Deny`, and no
/// policy is named as determining or shadowed.
pub proof fn lemma_default_deny(verdicts: Seq<VerdictView>)
    requires
        forall|i: int| 0 <= i < verdicts.len() ==> !(#[trigger] verdicts[i].outcome is Satisfied),
    ensures
        combine_spec(verdicts).decision == Decision::Deny,
        combine_spec(verdicts).determining.len() == 0,
        combine_spec(verdicts).shadowed.len() == 0,
{
    lemma_nothing_selected(verdicts, satisfied_with(Effect::Forbid));
    lemma_nothing_selected(verdicts, satisfied_with(Effect::Permit));
}

/// Forbid overrides permit: one satisfied forbid policy makes the decision
/// `Deny`, whatever else is satisfied, and is named as determining.
pub proof fn lemma_forbid_overrides(verdicts: Seq<VerdictView>, i: int)
    requires
        0 <= i < verdicts.len(),
        verdicts[i].effect == Effect::Forbid,
        verdicts[i].outcome is Satisfied,
    ensures
        combine_spec(verdicts).decision == Decision::Deny,
        combine_spec(verdicts).determining.contains(verdicts[i].policy_id),
{
    lemma_selected_occurs(verdicts, satisfied_with(Effect::Forbid), i);
}

/// A satisfied permit policy is always reported: as determining when the
/// decision is `Allow`, as shadowed when a forbid policy overrode it.
pub proof fn lemma_permit_reported(verdicts: Seq<VerdictView>, i: int)
    requires
        0 <= i < verdicts.len(),
        verdicts[i].effect == Effect::Permit,
        verdicts[i].outcome is Satisfied,
    ensures
        combine_spec(verdicts).decision == Decision::Allow ==> combine_spec(
            verdicts,
        ).determining.contains(verdicts[i].policy_id),
        combine_spec(verdicts).decision == Decision::Deny ==> combine_spec(
            verdicts,
        ).shadowed.contains(verdicts[i].policy_id),
{
    lemma_selected_occurs(verdicts, satisfied_with(Effect::Permit), i);
}

/// Every failed evaluation is recorded: a verdict that is an error puts an
/// evaluation error for its policy among the errors of the combination.
pub proof fn lemma_failure_recorded(verdicts: Seq<VerdictView>, i: int)
    requires
        0 <= i < verdicts.len(),
        verdicts[i].outcome is Errored,
    ensures
        combine_spec(verdicts).errors.contains(
            ErrorView::Evaluation {
                policy_id: verdicts[i].policy_id,
                detail: verdicts[i].outcome->detail,
            },
        ),
{
    lemma_selected_occurs(verdicts, failure_of(), i);
}

/// The combination depends on nothing but the content of the verdicts: equal
/// ids, effects and outcomes in equal order give the same decision and the
/// same determining, shadowed and error lists, order included.
pub proof fn lemma_combine_deterministic(first: Seq<Verdict>, second: Seq<Verdict>)
    requires
        first.len() == second.len(),
        forall|i: int| 0 <= i < first.len() ==> first[i]@ == second[i]@,
    ensures
        combine_spec(verdict_views(first)) == combine_spec(verdict_views(second)),
{
    assert(verdict_views(first) =~= verdict_views(second));
}

/// The decision is `Allow` exactly when some permit policy is satisfied and
/// no forbid policy is.
pub proof fn lemma_allow_iff(verdicts: Seq<VerdictView>)
    ensures
        combine_spec(verdicts).decision == Decision::Allow <==> ((exists|i: int|
            0 <= i < verdicts.len() && (#[trigger] verdicts[i]).effect == Effect::Permit
                && verdicts[i].outcome is Satisfied) && (forall|j: int|
            0 <= j < verdicts.len() && (#[trigger] verdicts[j]).effect == Effect::Forbid
                ==> !(verdicts[j].outcome is Satisfied))),
{
    let forbid = satisfied_with(Effect::Forbid);
    let permit = satisfied_with(Effect::Permit);
    if exists|j: int|
        0 <= j < verdicts.len() && (#[trigger] verdicts[j]).effect == Effect::Forbid
            && verdicts[j].outcome is Satisfied {
        let j = choose|j: int|
            0 <= j < verdicts.len() && (#[trigger] verdicts[j]).effect == Effect::Forbid
                && verdicts[j].outcome is Satisfied;
        lemma_forbid_overrides(verdicts, j);
    } else {
        assert forall|k: int| 0 <= k < verdicts.len() implies forbid(
            #[trigger] verdicts[k],
        ) is None by {}
        lemma_nothing_selected(verdicts, forbid);
        if exists|i: int|
            0 <= i < verdicts.len() && (#[trigger] verdicts[i]).effect == Effect::Permit
                && verdicts[i].outcome is Satisfied {
            let i = choose|i: int|
                0 <= i < verdicts.len() && (#[trigger] verdicts[i]).effect == Effect::Permit
                    && verdicts[i].outcome is Satisfied;
            lemma_selected_occurs(verdicts, permit, i);
        } else {
            assert forall|k: int| 0 <= k < verdicts.len() implies permit(
                #[trigger] verdicts[k],
            ) is None by {}
            lemma_nothing_selected(verdicts, permit);
        }
    }
}

} // verus!
