//! The boundary to the Cedar engine.
//!
//! Every item in this file is believed, not proved. The declarations make
//! Cedar's types known as opaque values, and the names say what such a value
//! holds or what a call makes of a text. Each wrapper makes one Cedar call
//! and states of it only what Cedar's source shows for every input; where
//! the source lets the outcome depend on more than the arguments, it states
//! only what holds of every outcome.

use vstd::prelude::*;
use crate::model::Effect;
use crate::limits::{entities_within_limits, within_limits};

verus! {

/// A parsed policy.
#[verifier::external_type_specification]
#[verifier::external_body]
pub struct ExPolicy(cedar_policy::Policy);

/// A parsed entity identifier.
#[verifier::external_type_specification]
#[verifier::external_body]
pub struct ExEntityUid(cedar_policy::EntityUid);

/// The context record of a request.
#[verifier::external_type_specification]
#[verifier::external_body]
pub struct ExContext(cedar_policy::Context);

/// A request as the engine evaluates it.
#[verifier::external_type_specification]
#[verifier::external_body]
pub struct ExRequest(cedar_policy::Request);

/// An entity store with its ancestor closure.
#[verifier::external_type_specification]
#[verifier::external_body]
pub struct ExEntities(cedar_policy::Entities);

/// Why a policy could not join a policy set.
#[verifier::external_type_specification]
#[verifier::external_body]
pub struct ExPolicySetError(cedar_policy::PolicySetError);

/// Why a context document was refused.
#[verifier::external_type_specification]
#[verifier::external_body]
pub struct ExContextJsonError(cedar_policy::ContextJsonError);

/// Why an entity document was refused.
#[verifier::external_type_specification]
#[verifier::external_body]
pub struct ExEntitiesError(cedar_policy::EntitiesError);

/// What the policy parser reports when it rejects a text.
pub(crate) struct ParseFailure {
    /// Byte offset of the first complaint, when the parser names one.
    pub position: Option<usize>,
    /// The parser's message.
    pub detail: String,
}

/// What the policy parser makes of a text it accepts.
pub(crate) struct ParsedPolicy {
    /// The policy as the engine evaluates it.
    pub policy: cedar_policy::Policy,
    /// The policy's effect.
    pub effect: Effect,
}

/// What the engine reports after evaluating a policy set against a request.
pub(crate) struct RawOutcome {
    /// Ids of the policies that determined the engine's decision.
    pub reasons: Vec<String>,
    /// Messages of the evaluation errors.
    pub errors: Vec<String>,
}

/// Whether Cedar's `Policy::parse` accepts `text` as a static policy to be
/// stored under `id`.
pub uninterp spec fn policy_parses(id: Seq<char>, text: Seq<char>) -> bool;

/// The effect that Cedar's `Policy::effect` reports for the policy that
/// `Policy::parse` makes of `text` under `id`.
pub uninterp spec fn declared_effect(id: Seq<char>, text: Seq<char>) -> Effect;

/// The id that a policy is stored under and the text it was parsed from.
pub uninterp spec fn policy_source(policy: cedar_policy::Policy) -> (Seq<char>, Seq<char>);

/// Whether Cedar's `EntityUid::from_str` accepts `text` as an entity identifier.
pub uninterp spec fn uid_parses(text: Seq<char>) -> bool;

/// An entity identifier in its printed form, which is the normalized text
/// that `EntityUid::from_str` accepts.
pub uninterp spec fn uid_text(uid: cedar_policy::EntityUid) -> Seq<char>;

/// What a context holds: the name of each attribute with its value in
/// printed form.
pub uninterp spec fn context_content(context: cedar_policy::Context) -> Map<Seq<char>, Seq<char>>;

/// The content of the context that Cedar's `Context::from_json_str` makes of
/// a document, if the document can be converted at all.
pub uninterp spec fn context_of(json: Seq<char>) -> Option<Map<Seq<char>, Seq<char>>>;

/// The content of a context without attributes.
pub open spec fn no_attributes() -> Map<Seq<char>, Seq<char>> {
    Map::empty()
}

/// The principal, action and resource of a request, each in printed form.
pub uninterp spec fn parties(request: cedar_policy::Request) -> (Seq<char>, Seq<char>, Seq<char>);

/// The content of the context that a request carries.
pub uninterp spec fn request_context(request: cedar_policy::Request) -> Map<Seq<char>, Seq<char>>;

/// Whether the engine, evaluating `policy` alone for `request` against
/// `entities` without meeting an error, names the policy as a reason for its
/// decision: the policy's scope matches and its conditions hold.
pub uninterp spec fn applies(
    policy: cedar_policy::Policy,
    request: cedar_policy::Request,
    entities: cedar_policy::Entities,
) -> bool;

/// What an entity store holds: the identifier of each entity, in the
/// normalized text that `EntityUid::from_str` accepts, with the identifiers
/// of all the ancestors that the store records for that entity.
pub uninterp spec fn hierarchy(entities: cedar_policy::Entities) -> Map<Seq<char>, Set<Seq<char>>>;

/// The content of the store that Cedar's `Entities::from_json_str` makes of an
/// entity document, if the document can be converted at all. A document
/// whose parent edges form a cycle cannot.
pub uninterp spec fn hierarchy_of(json: Seq<char>) -> Option<Map<Seq<char>, Set<Seq<char>>>>;

/// The content of a store that holds no entity.
pub open spec fn nothing_held() -> Map<Seq<char>, Set<Seq<char>>> {
    Map::empty()
}

/// What an entity store knows of its entities: under the identifier of each
/// entity, the name of each of its attributes with the value in printed form.
pub uninterp spec fn attributes(entities: cedar_policy::Entities) -> Map<
    Seq<char>,
    Map<Seq<char>, Seq<char>>,
>;

/// The attributes in the store that Cedar's `Entities::from_json_str` makes of
/// an entity document, if the document can be converted at all.
pub uninterp spec fn attributes_of(json: Seq<char>) -> Option<
    Map<Seq<char>, Map<Seq<char>, Seq<char>>>,
>;

/// The attributes of a store that holds no entity.
pub open spec fn nothing_known() -> Map<Seq<char>, Map<Seq<char>, Seq<char>>> {
    Map::empty()
}

/// Whether recorded ancestors are closed under the parent relation and free
/// of cycles: the ancestors of an entity's ancestor are its ancestors too,
/// and no entity is its own ancestor.
pub open spec fn closed_without_cycle(held: Map<Seq<char>, Set<Seq<char>>>) -> bool {
    &&& forall|id: Seq<char>| held.contains_key(id) ==> !(#[trigger] held[id].contains(id))
    &&& forall|a: Seq<char>, b: Seq<char>, c: Seq<char>|
        held.contains_key(a) && #[trigger] held[a].contains(b) && held.contains_key(b)
            && #[trigger] held[b].contains(c) ==> held[a].contains(c)
}

/// Whether a store with content `held` records `ancestor` among the ancestors
/// of `descendant`. Of an entity that the store does not hold, only the
/// entity itself counts.
pub open spec fn descends(
    held: Map<Seq<char>, Set<Seq<char>>>,
    descendant: Seq<char>,
    ancestor: Seq<char>,
) -> bool {
    if held.contains_key(descendant) {
        held[descendant].contains(ancestor)
    } else {
        ancestor == descendant
    }
}

/// `cedar_policy::Policy::parse` with the id given, and
/// `cedar_policy::Policy::effect` of the policy it returns. The parser reads
/// nothing but its two arguments, so whether it succeeds, and with which
/// effect, is a fixed property of them. The policy it returns is stored under
/// the id given and keeps the text. A rejection comes back as the first
/// error's message and source offset. The parser works on the caller's
/// stack, so it is given only texts that keep the bounds on length and
/// nesting.
#[verifier::external_body]
#[allow(deprecated)]
pub(crate) fn parse_policy(id: &str, text: &str) -> (r: Result<ParsedPolicy, ParseFailure>)
    requires
        within_limits(text@),
    ensures
        r.is_ok() == policy_parses(id@, text@),
        r matches Ok(parsed) ==> parsed.effect == declared_effect(id@, text@),
        r matches Ok(parsed) ==> policy_source(parsed.policy) == (id@, text@),
{
    let parsed = cedar_policy::Policy::parse(Some(id.to_owned()), text);
    let parsed = parsed.map(|policy| match policy.effect() {
        cedar_policy::Effect::Permit => ParsedPolicy { policy, effect: Effect::Permit },
        cedar_policy::Effect::Forbid => ParsedPolicy { policy, effect: Effect::Forbid },
    });
    parsed.map_err(|e| ParseFailure {
        position: e.first().and_then(|first| first.primary_source_span()).map(|s| s.offset()),
        detail: e.to_string(),
    })
}

/// `<cedar_policy::EntityUid as FromStr>::from_str`, which accepts only the
/// normalized form of an identifier: the text must equal the printed form of
/// what was read. Like the policy parser it reads nothing but its argument,
/// so whether it succeeds is a fixed property of the text. A rejection comes
/// back as the first error's message.
#[verifier::external_body]
pub(crate) fn parse_uid(text: &str) -> (r: Result<cedar_policy::EntityUid, String>)
    ensures
        r.is_ok() == uid_parses(text@),
        r matches Ok(uid) ==> uid_text(uid) == text@,
{
    text.parse::<cedar_policy::EntityUid>().map_err(|e| e.to_string())
}

/// `cedar_policy::Context::empty`: the context without attributes.
#[verifier::external_body]
pub(crate) fn empty_context() -> (r: cedar_policy::Context)
    ensures
        context_content(r) == no_attributes(),
{
    cedar_policy::Context::empty()
}

/// `cedar_policy::Entities::empty`: the store that holds no entity.
#[verifier::external_body]
pub(crate) fn empty_entities() -> (r: cedar_policy::Entities)
    ensures
        hierarchy(r) == nothing_held(),
        attributes(r) == nothing_known(),
{
    cedar_policy::Entities::empty()
}

/// `cedar_policy::Context::from_json_str` without a schema. Whether it
/// succeeds is not claimed: converting the values consults the stack space
/// left to the calling thread. A context that it returns holds what the
/// document says, so the document can be converted and the content is a
/// fixed property of it.
#[verifier::external_body]
pub(crate) fn parse_context(json: &str) -> (r: Result<
    cedar_policy::Context,
    cedar_policy::ContextJsonError,
>)
    ensures
        r matches Ok(context) ==> context_of(json@) == Some(context_content(context)),
{
    cedar_policy::Context::from_json_str(json, None)
}

/// `cedar_policy::Request::new` with all three parties given and no schema.
/// Without a schema the constructor validates nothing and returns `Ok`, with
/// a request that holds the three identifiers and the context as given.
#[verifier::external_body]
pub(crate) fn build_request(
    principal: cedar_policy::EntityUid,
    action: cedar_policy::EntityUid,
    resource: cedar_policy::EntityUid,
    context: cedar_policy::Context,
) -> (r: Result<cedar_policy::Request, String>)
    ensures
        r.is_ok(),
        r matches Ok(request) ==> parties(request) == (
            uid_text(principal),
            uid_text(action),
            uid_text(resource),
        ),
        r matches Ok(request) ==> request_context(request) == context_content(context),
{
    cedar_policy::Request::new(Some(principal), Some(action), Some(resource), context, None)
        .map_err(|e| e.to_string())
}

/// `cedar_policy::Entities::from_json_str` without a schema. Whether it
/// succeeds is not claimed, for the same reason as for the context. A store
/// that it returns holds what the document says and nothing else, so the
/// document can be converted and the content is a fixed property of it. The
/// call completes the ancestors of every entity and refuses a document whose
/// parent edges form a cycle, so the ancestors of a store that it returns are
/// closed and free of cycles. It follows the parent edges on the caller's
/// stack, so it is given only documents that keep the bound on length.
#[verifier::external_body]
pub(crate) fn parse_entities(json: &str) -> (r: Result<
    cedar_policy::Entities,
    cedar_policy::EntitiesError,
>)
    requires
        entities_within_limits(json@),
    ensures
        r matches Ok(entities) ==> hierarchy_of(json@) == Some(hierarchy(entities)),
        r matches Ok(entities) ==> attributes_of(json@) == Some(attributes(entities)),
        r matches Ok(entities) ==> closed_without_cycle(hierarchy(entities)),
{
    cedar_policy::Entities::from_json_str(json, None)
}

/// `cedar_policy::Entities::is_ancestor_of`: whether the store records
/// `ancestor` among the ancestors of `descendant`; of an entity that the
/// store does not hold, whether the two identifiers are the same.
#[verifier::external_body]
pub(crate) fn is_ancestor(
    entities: &cedar_policy::Entities,
    ancestor: &cedar_policy::EntityUid,
    descendant: &cedar_policy::EntityUid,
) -> (r: bool)
    ensures
        r == descends(hierarchy(*entities), uid_text(*descendant), uid_text(*ancestor)),
{
    entities.is_ancestor_of(ancestor, descendant)
}

/// `cedar_policy::Authorizer::is_authorized` on a fresh authorizer, for the
/// set that `cedar_policy::PolicySet::from_policies` makes of a copy of the
/// one policy. The response's reasons and errors come back as text. The
/// evaluator consults the stack space left to the calling thread, and when it
/// runs short it reports an error. So only this is claimed: where no error is
/// reported, a reason is reported exactly when the policy applies.
#[verifier::external_body]
pub(crate) fn evaluate(
    policy: &cedar_policy::Policy,
    request: &cedar_policy::Request,
    entities: &cedar_policy::Entities,
) -> (r: Result<RawOutcome, cedar_policy::PolicySetError>)
    ensures
        r matches Ok(raw) ==> (raw.errors@.len() == 0 ==> (raw.reasons@.len() > 0) == applies(
            *policy,
            *request,
            *entities,
        )),
{
    let unit = cedar_policy::PolicySet::from_policies([policy.clone()])?;
    let response = cedar_policy::Authorizer::new().is_authorized(request, &unit, entities);
    Ok(RawOutcome {
        reasons: response.diagnostics().reason().map(|id| id.to_string()).collect(),
        errors: response.diagnostics().errors().map(|e| e.to_string()).collect(),
    })
}

} // verus!
