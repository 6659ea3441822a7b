//! Evaluating a request against a policy set.

use vstd::prelude::*;
use crate::decision::{
    combine, combine_spec, failure_of, lemma_allow_iff, lemma_default_deny,
    lemma_failure_recorded, lemma_forbid_overrides, satisfied_ids, satisfied_with, verdict_views,
    Outcome, OutcomeView, Verdict, VerdictView,
};
use crate::model::ErrorView;
use crate::engine::{applies, evaluate, uid_parses};
use crate::model::{
    policy_views, texts, AuthError, CedarPolicy, CedarResult, Decision, Effect, InputTree,
    PolicyView, ResultView,
};
use crate::cache::{held_at, held_value, lookup, well_formed, PolicyCache};
use crate::fingerprint::{fingerprint, fingerprint_spec};
use crate::policy::{
    compiles_to, first_defect, lemma_no_defect, raw_effects, raw_ids, raw_sources, reports,
    sources, well_formed_policy, Compiled, CompiledSet,
};
use crate::request::{
    asks, blames_part, blames_tree, context_stood_for, first_bad_part, store_view, stored_by,
    AuthRequest, EntityStore,
};

verus! {

/// How a policy fared, read off what the engine reported for that policy
/// alone: an error makes it `Errored`, else a reason makes it `Satisfied`.
pub open spec fn classify_spec(reasons: Seq<Seq<char>>, errors: Seq<Seq<char>>) -> OutcomeView {
    if errors.len() > 0 {
        OutcomeView::Errored { detail: errors[0] }
    } else if reasons.len() > 0 {
        OutcomeView::Satisfied
    } else {
        OutcomeView::NotSatisfied
    }
}

/// Reads one policy's outcome off the reasons and errors that the engine
/// reported when it evaluated that policy alone.
pub fn classify(reasons: &Vec<String>, errors: &Vec<String>) -> (r: Outcome)
    ensures
        r@ == classify_spec(texts(reasons@), texts(errors@)),
{
    if errors.len() > 0 {
        Outcome::Errored { detail: errors[0].clone() }
    } else if reasons.len() > 0 {
        Outcome::Satisfied
    } else {
        Outcome::NotSatisfied
    }
}

/// Whether `verdicts` holds one verdict per policy, in declaration order,
/// under the ids and effects given.
pub open spec fn judges(verdicts: Seq<VerdictView>, ids: Seq<Seq<char>>, effects: Seq<Effect>) -> bool {
    &&& verdicts.len() == ids.len()
    &&& verdicts.len() == effects.len()
    &&& forall|i: int|
        0 <= i < verdicts.len() ==> (#[trigger] verdicts[i]).policy_id == ids[i] && verdicts[i].effect
            == effects[i]
}

/// Whether `result` is what some verdicts on the policies with these ids and
/// effects combine to.
pub open spec fn decided_by(result: ResultView, ids: Seq<Seq<char>>, effects: Seq<Effect>) -> bool {
    exists|verdicts: Seq<VerdictView>|
        judges(verdicts, ids, effects) && result == combine_spec(verdicts)
}

/// A decision over a set of policies names only policies of that set, and it
/// allows only on account of at least one of them, with none shadowed.
pub proof fn lemma_decided_names_members(
    result: ResultView,
    ids: Seq<Seq<char>>,
    effects: Seq<Effect>,
)
    requires
        decided_by(result, ids, effects),
    ensures
        forall|k: int|
            0 <= k < result.determining.len() ==> ids.contains(#[trigger] result.determining[k]),
        forall|k: int| 0 <= k < result.shadowed.len() ==> ids.contains(#[trigger] result.shadowed[k]),
        result.decision == Decision::Allow ==> result.determining.len() > 0
            && result.shadowed.len() == 0,
        ids.len() == 0 ==> result.decision == Decision::Deny,
{
    let verdicts = choose|verdicts: Seq<VerdictView>|
        judges(verdicts, ids, effects) && result == combine_spec(verdicts);
    assert forall|effect: Effect, k: int|
        0 <= k < satisfied_ids(verdicts, effect).len() implies ids.contains(
        #[trigger] satisfied_ids(verdicts, effect)[k],
    ) by {
        let id = satisfied_ids(verdicts, effect)[k];
        verdicts.lemma_filter_map_contains(satisfied_with(effect), id);
        let t = choose|t: VerdictView|
            #[trigger] verdicts.contains(t) && satisfied_with(effect)(t) == Some(id);
        let j = choose|j: int| 0 <= j < verdicts.len() && verdicts[j] == t;
        assert(ids[j] == id);
    }
    if ids.len() == 0 {
        lemma_default_deny(verdicts);
    }
}

/// A decision over a set of policies records no errors but evaluation
/// errors, each of a policy of that set.
pub proof fn lemma_decided_errors(result: ResultView, ids: Seq<Seq<char>>, effects: Seq<Effect>)
    requires
        decided_by(result, ids, effects),
    ensures
        forall|k: int|
            0 <= k < result.errors.len() ==> (#[trigger] result.errors[k]) is Evaluation
                && ids.contains(result.errors[k]->Evaluation_policy_id),
{
    let verdicts = choose|verdicts: Seq<VerdictView>|
        judges(verdicts, ids, effects) && result == combine_spec(verdicts);
    assert forall|k: int| 0 <= k < result.errors.len() implies (#[trigger] result.errors[k])
        is Evaluation && ids.contains(result.errors[k]->Evaluation_policy_id) by {
        let error = result.errors[k];
        assert(verdicts.filter_map(failure_of()).contains(error));
        verdicts.lemma_filter_map_contains(failure_of(), error);
        let t = choose|t: VerdictView|
            #[trigger] verdicts.contains(t) && failure_of()(t) == Some(error);
        let j = choose|j: int| 0 <= j < verdicts.len() && verdicts[j] == t;
        assert(ids[j] == t.policy_id);
    }
}

/// A set in which every policy forbids never allows.
pub proof fn lemma_only_forbids_deny(result: ResultView, ids: Seq<Seq<char>>, effects: Seq<Effect>)
    requires
        decided_by(result, ids, effects),
        forall|i: int| 0 <= i < effects.len() ==> effects[i] == Effect::Forbid,
    ensures
        result.decision == Decision::Deny,
{
    let verdicts = choose|verdicts: Seq<VerdictView>|
        judges(verdicts, ids, effects) && result == combine_spec(verdicts);
    lemma_allow_iff(verdicts);
}

/// Whether `result` denies the request on account of exactly one error.
pub open spec fn rejected(result: ResultView) -> bool {
    &&& result.decision == Decision::Deny
    &&& result.determining.len() == 0
    &&& result.shadowed.len() == 0
    &&& result.errors.len() == 1
}

/// Whether each verdict that is not an error is the engine's finding for the
/// policy at its position: satisfied exactly when that policy applies to the
/// request against the store.
pub open spec fn judged(
    verdicts: Seq<VerdictView>,
    engine: Seq<cedar_policy::Policy>,
    request: cedar_policy::Request,
    store: cedar_policy::Entities,
) -> bool {
    &&& verdicts.len() == engine.len()
    &&& forall|i: int|
        0 <= i < verdicts.len() ==> (#[trigger] verdicts[i]).outcome is Errored || (
        verdicts[i].outcome is Satisfied) == applies(engine[i], request, store)
}

/// Whether `result` is what verdicts on these policies combine to, where the
/// verdicts are the engine's findings for this request against this store.
pub open spec fn decided_for(
    result: ResultView,
    ids: Seq<Seq<char>>,
    effects: Seq<Effect>,
    engine: Seq<cedar_policy::Policy>,
    request: cedar_policy::Request,
    store: cedar_policy::Entities,
) -> bool {
    exists|verdicts: Seq<VerdictView>|
        judges(verdicts, ids, effects) && #[trigger] judged(verdicts, engine, request, store)
            && result == combine_spec(verdicts)
}

/// A decision for a request is a decision by the policies.
pub proof fn lemma_decided_for_by(
    result: ResultView,
    ids: Seq<Seq<char>>,
    effects: Seq<Effect>,
    engine: Seq<cedar_policy::Policy>,
    request: cedar_policy::Request,
    store: cedar_policy::Entities,
)
    requires
        decided_for(result, ids, effects, engine, request, store),
    ensures
        decided_by(result, ids, effects),
{
    let verdicts = choose|verdicts: Seq<VerdictView>|
        judges(verdicts, ids, effects) && #[trigger] judged(verdicts, engine, request, store)
            && result == combine_spec(verdicts);
    assert(judges(verdicts, ids, effects) && result == combine_spec(verdicts));
}

/// Default deny: where no policy of the set applies to the request, the
/// decision is `Deny` and no policy is named.
pub proof fn lemma_none_applies_denies(
    result: ResultView,
    ids: Seq<Seq<char>>,
    effects: Seq<Effect>,
    engine: Seq<cedar_policy::Policy>,
    request: cedar_policy::Request,
    store: cedar_policy::Entities,
)
    requires
        decided_for(result, ids, effects, engine, request, store),
        forall|i: int| 0 <= i < engine.len() ==> !applies(#[trigger] engine[i], request, store),
    ensures
        result.decision == Decision::Deny,
        result.determining.len() == 0,
        result.shadowed.len() == 0,
{
    let verdicts = choose|verdicts: Seq<VerdictView>|
        judges(verdicts, ids, effects) && #[trigger] judged(verdicts, engine, request, store)
            && result == combine_spec(verdicts);
    assert forall|i: int| 0 <= i < verdicts.len() implies !(
    #[trigger] verdicts[i].outcome is Satisfied) by {
        assert(!applies(engine[i], request, store));
    }
    lemma_default_deny(verdicts);
}

/// Forbid overrides permit: where a forbid policy of the set applies to the
/// request and no evaluation error is recorded against it, the decision is
/// `Deny` and that policy is named as determining, whatever else applies.
pub proof fn lemma_applying_forbid_denies(
    result: ResultView,
    ids: Seq<Seq<char>>,
    effects: Seq<Effect>,
    engine: Seq<cedar_policy::Policy>,
    request: cedar_policy::Request,
    store: cedar_policy::Entities,
    i: int,
)
    requires
        decided_for(result, ids, effects, engine, request, store),
        0 <= i < ids.len(),
        effects[i] == Effect::Forbid,
        applies(engine[i], request, store),
        forall|k: int|
            0 <= k < result.errors.len() && (#[trigger] result.errors[k]) is Evaluation
                ==> result.errors[k]->Evaluation_policy_id != ids[i],
    ensures
        result.decision == Decision::Deny,
        result.determining.contains(ids[i]),
{
    let verdicts = choose|verdicts: Seq<VerdictView>|
        judges(verdicts, ids, effects) && #[trigger] judged(verdicts, engine, request, store)
            && result == combine_spec(verdicts);
    assert(verdicts[i].policy_id == ids[i]);
    if verdicts[i].outcome is Errored {
        lemma_failure_recorded(verdicts, i);
        let recorded = ErrorView::Evaluation {
            policy_id: verdicts[i].policy_id,
            detail: verdicts[i].outcome->detail,
        };
        let k = choose|k: int| 0 <= k < result.errors.len() && result.errors[k] == recorded;
        assert(result.errors[k]->Evaluation_policy_id == ids[i]);
    }
    lemma_forbid_overrides(verdicts, i);
}

/// What the engine finds for each policy when it meets no error: under the
/// policy's id and effect, satisfied exactly when the policy applies.
pub open spec fn findings(
    ids: Seq<Seq<char>>,
    effects: Seq<Effect>,
    engine: Seq<cedar_policy::Policy>,
    request: cedar_policy::Request,
    store: cedar_policy::Entities,
) -> Seq<VerdictView> {
    Seq::new(
        ids.len(),
        |i: int|
            VerdictView {
                policy_id: ids[i],
                effect: effects[i],
                outcome: if applies(engine[i], request, store) {
                    OutcomeView::Satisfied
                } else {
                    OutcomeView::NotSatisfied
                },
            },
    )
}

/// A decision that records no error is exactly the combination of what the
/// engine finds: `Deny` with the applying forbid policies determining and
/// the applying permit policies shadowed, if any forbid policy applies; else
/// `Allow` with the applying permit policies determining, if any applies;
/// else `Deny`. The ids stand in declaration order.
pub proof fn lemma_unerring_decision_is_exact(
    result: ResultView,
    ids: Seq<Seq<char>>,
    effects: Seq<Effect>,
    engine: Seq<cedar_policy::Policy>,
    request: cedar_policy::Request,
    store: cedar_policy::Entities,
)
    requires
        decided_for(result, ids, effects, engine, request, store),
        result.errors.len() == 0,
    ensures
        result == combine_spec(findings(ids, effects, engine, request, store)),
{
    let verdicts = choose|verdicts: Seq<VerdictView>|
        judges(verdicts, ids, effects) && #[trigger] judged(verdicts, engine, request, store)
            && result == combine_spec(verdicts);
    let found = findings(ids, effects, engine, request, store);
    assert forall|i: int| 0 <= i < verdicts.len() implies verdicts[i] == found[i] by {
        if verdicts[i].outcome is Errored {
            lemma_failure_recorded(verdicts, i);
        }
    }
    assert(verdicts =~= found);
}

/// Determinism: two decisions by the same policies for the same request
/// against the same store, neither of which records an error, are the same,
/// the order of the ids included.
pub proof fn lemma_unerring_decisions_agree(
    first: ResultView,
    second: ResultView,
    ids: Seq<Seq<char>>,
    effects: Seq<Effect>,
    engine: Seq<cedar_policy::Policy>,
    request: cedar_policy::Request,
    store: cedar_policy::Entities,
)
    requires
        decided_for(first, ids, effects, engine, request, store),
        decided_for(second, ids, effects, engine, request, store),
        first.errors.len() == 0,
        second.errors.len() == 0,
    ensures
        first == second,
{
    let a = choose|verdicts: Seq<VerdictView>|
        judges(verdicts, ids, effects) && #[trigger] judged(verdicts, engine, request, store)
            && first == combine_spec(verdicts);
    let b = choose|verdicts: Seq<VerdictView>|
        judges(verdicts, ids, effects) && #[trigger] judged(verdicts, engine, request, store)
            && second == combine_spec(verdicts);
    assert forall|i: int| 0 <= i < a.len() implies a[i] == b[i] by {
        if a[i].outcome is Errored {
            lemma_failure_recorded(a, i);
        }
        if b[i].outcome is Errored {
            lemma_failure_recorded(b, i);
        }
        assert(a[i].outcome is Satisfied == b[i].outcome is Satisfied);
        assert(a[i].policy_id == b[i].policy_id && a[i].effect == b[i].effect);
    }
    assert(a =~= b);
}

/// Evaluates every policy of the set against the request, one at a time and
/// in declaration order.
///
/// There is one verdict per policy of the set, under its id and effect. The
/// engine is asked about that policy, this request and this store; unless it
/// reports an error, the verdict is satisfied exactly when the policy applies.
pub fn judge(policies: &CompiledSet, entities: &EntityStore, request: &AuthRequest) -> (r: Vec<
    Verdict,
>)
    ensures
        judges(verdict_views(r@), policies.ids(), policies.effects()),
        judged(
            verdict_views(r@),
            policies.engine_policies(),
            request.engine_request(),
            entities.engine_store(),
        ),
{
    let mut verdicts: Vec<Verdict> = Vec::new();
    let n = policies.len();
    let mut i: usize = 0;
    while i < n
        invariant
            i <= n,
            n == policies.ids().len(),
            n == policies.effects().len(),
            n == policies.engine_policies().len(),
            verdicts.len() == i,
            forall|k: int|
                0 <= k < i ==> (#[trigger] verdicts@[k])@.policy_id == policies.ids()[k]
                    && verdicts@[k]@.effect == policies.effects()[k],
            forall|k: int|
                0 <= k < i ==> (#[trigger] verdicts@[k])@.outcome is Errored || (
                verdicts@[k]@.outcome is Satisfied) == applies(
                    policies.engine_policies()[k],
                    request.engine_request(),
                    entities.engine_store(),
                ),
        decreases n - i,
    {
        let policy = policies.get(i);
        let outcome = match evaluate(policy.inner(), request.inner(), entities.inner()) {
            Ok(raw) => classify(&raw.reasons, &raw.errors),
            Err(e) => Outcome::Errored { detail: e.to_string() },
        };
        verdicts.push(Verdict { policy_id: policy.id().clone(), effect: policy.effect(), outcome });
        i += 1;
    }
    verdicts
}

/// Decides a request against a policy set and an entity store.
///
/// The result is the combination of the engine's findings, one per policy of
/// the set: any satisfied forbid policy denies, else any satisfied permit
/// policy allows, else the request is denied.
pub fn decide(policies: &CompiledSet, entities: &EntityStore, request: &AuthRequest) -> (r:
    CedarResult)
    ensures
        decided_for(
            r@,
            policies.ids(),
            policies.effects(),
            policies.engine_policies(),
            request.engine_request(),
            entities.engine_store(),
        ),
{
    let verdicts = judge(policies, entities, request);
    combine(&verdicts)
}

/// A `Deny` that reports `error` and nothing else.
pub fn reject(error: AuthError) -> (r: CedarResult)
    ensures
        rejected(r@),
        r@.errors[0] == error@,
{
    let mut errors: Vec<AuthError> = Vec::new();
    errors.push(error);
    CedarResult {
        result: Decision::Deny,
        determining_policy_ids: Vec::new(),
        shadowed_policy_ids: Vec::new(),
        errors,
    }
}

/// Whether `result` is the decision of these policies for a request and a
/// store that hold exactly what the texts stand for.
pub open spec fn served(
    result: ResultView,
    ids: Seq<Seq<char>>,
    effects: Seq<Effect>,
    engine: Seq<cedar_policy::Policy>,
    principal: Seq<char>,
    action: Seq<char>,
    resource: Seq<char>,
    context: Seq<char>,
    entities: Seq<char>,
) -> bool {
    exists|request: cedar_policy::Request, store: cedar_policy::Entities|
        asks(request, principal, action, resource, context) && stored_by(entities) == Some(
            store_view(store),
        ) && #[trigger] decided_for(result, ids, effects, engine, request, store)
}

/// What is owed once the policies are known to be well formed: a rejection
/// that blames the first malformed identifier; else either a rejection that
/// blames a non-empty context or entity document, or the decision of the
/// policies for the request and the store that the texts stand for.
pub open spec fn settles(
    result: ResultView,
    ids: Seq<Seq<char>>,
    effects: Seq<Effect>,
    engine: Seq<cedar_policy::Policy>,
    principal: Seq<char>,
    action: Seq<char>,
    resource: Seq<char>,
    context: Seq<char>,
    entities: Seq<char>,
) -> bool {
    match first_bad_part(principal, action, resource) {
        Some(part) => rejected(result) && blames_part(result.errors[0], part),
        None => {
            ||| context.len() > 0 && rejected(result) && blames_tree(
                result.errors[0],
                InputTree::Context,
            )
            ||| entities.len() > 0 && rejected(result) && blames_tree(
                result.errors[0],
                InputTree::Entities,
            )
            ||| served(
                result,
                ids,
                effects,
                engine,
                principal,
                action,
                resource,
                context,
                entities,
            )
        },
    }
}

/// What is owed for a request against the outcome of a compilation: a
/// rejection that repeats the compile error, or else what the compiled set
/// settles.
pub open spec fn answers(
    result: ResultView,
    compiled: Compiled,
    principal: Seq<char>,
    action: Seq<char>,
    resource: Seq<char>,
    context: Seq<char>,
    entities: Seq<char>,
) -> bool {
    match compiled {
        Err(e) => rejected(result) && result.errors[0] == e@,
        Ok(set) => settles(
            result,
            set.ids(),
            set.effects(),
            set.engine_policies(),
            principal,
            action,
            resource,
            context,
            entities,
        ),
    }
}

/// What [`authorize`] owes for each input: a rejection that reports the first
/// defect of the policy list, or else what the policies settle, each made of
/// the id and text as declared.
pub open spec fn authorize_spec(
    result: ResultView,
    policies: Seq<PolicyView>,
    principal: Seq<char>,
    action: Seq<char>,
    resource: Seq<char>,
    context: Seq<char>,
    entities: Seq<char>,
) -> bool {
    match first_defect(policies) {
        Some(defect) => rejected(result) && reports(result.errors[0], defect, policies),
        None => exists|engine: Seq<cedar_policy::Policy>|
            sources(engine) == raw_sources(policies) && #[trigger] settles(
                result,
                raw_ids(policies),
                raw_effects(policies),
                engine,
                principal,
                action,
                resource,
                context,
                entities,
            ),
    }
}

/// Whether some top-level input is malformed: the policy list has a defect,
/// an identifier is not well formed, or the context or the entity document
/// cannot be converted.
pub open spec fn malformed_input(
    policies: Seq<PolicyView>,
    principal: Seq<char>,
    action: Seq<char>,
    resource: Seq<char>,
    context: Seq<char>,
    entities: Seq<char>,
) -> bool {
    ||| first_defect(policies) is Some
    ||| first_bad_part(principal, action, resource) is Some
    ||| context_stood_for(context) is None
    ||| stored_by(entities) is None
}

/// Fail closed: malformed input is rejected, with `Deny` and one error.
pub proof fn lemma_malformed_is_rejected(
    result: ResultView,
    policies: Seq<PolicyView>,
    principal: Seq<char>,
    action: Seq<char>,
    resource: Seq<char>,
    context: Seq<char>,
    entities: Seq<char>,
)
    requires
        authorize_spec(result, policies, principal, action, resource, context, entities),
        malformed_input(policies, principal, action, resource, context, entities),
    ensures
        rejected(result),
{
}

/// Fail closed: a call that allows was given a policy list without defect and
/// three well-formed identifiers, names at least one policy of the list as
/// determining, and records nothing but evaluation errors.
pub proof fn lemma_allow_is_earned(
    result: ResultView,
    policies: Seq<PolicyView>,
    principal: Seq<char>,
    action: Seq<char>,
    resource: Seq<char>,
    context: Seq<char>,
    entities: Seq<char>,
)
    requires
        authorize_spec(result, policies, principal, action, resource, context, entities),
        result.decision == Decision::Allow,
    ensures
        !malformed_input(policies, principal, action, resource, context, entities),
        uid_parses(principal) && uid_parses(action) && uid_parses(resource),
        result.determining.len() > 0,
        forall|k: int|
            0 <= k < result.determining.len() ==> raw_ids(policies).contains(
                #[trigger] result.determining[k],
            ),
        forall|k: int| 0 <= k < result.errors.len() ==> (#[trigger] result.errors[k]) is Evaluation,
{
    let engine = choose|engine: Seq<cedar_policy::Policy>|
        sources(engine) == raw_sources(policies) && #[trigger] settles(
            result,
            raw_ids(policies),
            raw_effects(policies),
            engine,
            principal,
            action,
            resource,
            context,
            entities,
        );
    let (request, store) = choose|request: cedar_policy::Request, store: cedar_policy::Entities|
        asks(request, principal, action, resource, context) && stored_by(entities) == Some(
            store_view(store),
        ) && #[trigger] decided_for(
            result,
            raw_ids(policies),
            raw_effects(policies),
            engine,
            request,
            store,
        );
    lemma_decided_for_by(
        result,
        raw_ids(policies),
        raw_effects(policies),
        engine,
        request,
        store,
    );
    lemma_decided_names_members(result, raw_ids(policies), raw_effects(policies));
    lemma_decided_errors(result, raw_ids(policies), raw_effects(policies));
}

/// Whether some policy of the list has a text that is not well formed.
pub open spec fn some_malformed(policies: Seq<PolicyView>) -> bool {
    exists|i: int|
        0 <= i < policies.len() && !well_formed_policy(
            #[trigger] policies[i].id,
            policies[i].text,
        )
}

/// Decides a request against the outcome of compiling a policy list.
///
/// A compile error is passed on as a rejection. Otherwise the request is
/// built, the entity store is built, and the set decides; the first of these
/// to fail rejects the request.
pub fn authorize_compiled(
    compiled: &Compiled,
    principal: &str,
    action: &str,
    resource: &str,
    context: &str,
    entities: &str,
) -> (r: CedarResult)
    ensures
        answers(r@, *compiled, principal@, action@, resource@, context@, entities@),
{
    let set = match compiled {
        Ok(set) => set,
        Err(e) => {
            return reject(e.duplicate());
        },
    };
    let request = match AuthRequest::new(principal, action, resource, context) {
        Ok(request) => request,
        Err(e) => {
            return reject(e);
        },
    };
    let store = match EntityStore::build(entities) {
        Ok(store) => store,
        Err(e) => {
            return reject(e);
        },
    };
    decide(set, &store, &request)
}

/// Decides whether `principal` may perform `action` on `resource`.
///
/// `policies` are compiled in the order given; `context` is a JSON object of
/// request attributes and `entities` a JSON array of entity records, either
/// of which may be empty. Malformed input never aborts and never allows: it
/// yields `Deny` together with the error. Otherwise the engine is asked
/// about each policy as declared, for the request and the store that the
/// texts stand for, and its findings are combined.
pub fn authorize(
    policies: &[CedarPolicy],
    principal: &str,
    action: &str,
    resource: &str,
    context: &str,
    entities: &str,
) -> (r: CedarResult)
    ensures
        authorize_spec(
            r@,
            policy_views(policies@),
            principal@,
            action@,
            resource@,
            context@,
            entities@,
        ),
        some_malformed(policy_views(policies@)) || !raw_ids(
            policy_views(policies@),
        ).no_duplicates() || !uid_parses(principal@) || !uid_parses(action@) || !uid_parses(
            resource@,
        ) || context_stood_for(context@) is None || stored_by(entities@) is None ==> r@.decision
            == Decision::Deny && r@.errors.len() > 0,
{
    proof {
        lemma_no_defect(policy_views(policies@));
    }
    let compiled = CompiledSet::compile(policies);
    authorize_compiled(&compiled, principal, action, resource, context, entities)
}

/// Like [`authorize`], but takes the compiled policies from `cache`, which
/// compiles them only if it holds nothing under their fingerprint.
///
/// The cache changes as one lookup of the fingerprint prescribes, and the
/// request is decided against what the cache then holds under it. After a
/// miss that is the outcome of compiling `policies`. Malformed identifiers
/// are rejected whatever the cache holds.
pub fn authorize_with_cache(
    cache: &mut PolicyCache,
    policies: &[CedarPolicy],
    principal: &str,
    action: &str,
    resource: &str,
    context: &str,
    entities: &str,
) -> (r: CedarResult)
    ensures
        well_formed(final(cache)@),
        held_at(final(cache)@.entries, fingerprint_spec(policy_views(policies@))) is Some,
        ({
            let fingerprint = fingerprint_spec(policy_views(policies@));
            let used = held_value(final(cache)@, fingerprint);
            &&& lookup(old(cache)@, fingerprint, used) == (final(cache)@, used)
            &&& held_at(old(cache)@.entries, fingerprint) is None ==> compiles_to(
                policy_views(policies@),
                used,
            )
            &&& answers(r@, used, principal@, action@, resource@, context@, entities@)
        }),
        !uid_parses(principal@) || !uid_parses(action@) || !uid_parses(resource@)
            || context_stood_for(context@) is None || stored_by(entities@) is None || (held_at(
            old(cache)@.entries,
            fingerprint_spec(policy_views(policies@)),
        ) is None && (some_malformed(policy_views(policies@)) || !raw_ids(
            policy_views(policies@),
        ).no_duplicates())) ==> r@.decision == Decision::Deny && r@.errors.len() > 0,
{
    let fingerprint = fingerprint(policies);
    let compiled = cache.get_or_compile(fingerprint, policies);
    proof {
        lemma_no_defect(policy_views(policies@));
    }
    authorize_compiled(&compiled, principal, action, resource, context, entities)
}

} // verus!
