//! Requests and entity stores, built from the caller's text.

use vstd::prelude::*;
use crate::engine::{
    attributes, attributes_of, build_request, closed_without_cycle, context_of, empty_context,
    empty_entities, hierarchy, hierarchy_of, is_ancestor, no_attributes, nothing_held,
    nothing_known, parse_context, parse_entities, parse_uid, parties, request_context,
    uid_parses,
};
use crate::limits::{entities_within_limits, MAX_ENTITY_BYTES};
use crate::model::{AuthError, ErrorView, InputTree, RequestPart};

verus! {

/// The first of principal, action and resource whose text is not a
/// well-formed entity identifier, if there is one.
pub open spec fn first_bad_part(
    principal: Seq<char>,
    action: Seq<char>,
    resource: Seq<char>,
) -> Option<RequestPart> {
    if !uid_parses(principal) {
        Some(RequestPart::Principal)
    } else if !uid_parses(action) {
        Some(RequestPart::Action)
    } else if !uid_parses(resource) {
        Some(RequestPart::Resource)
    } else {
        None
    }
}

/// Whether `error` blames the given part of the request.
pub open spec fn blames_part(error: ErrorView, part: RequestPart) -> bool {
    error is Identifier && error->Identifier_part == part
}

/// Whether `error` blames the given JSON document.
pub open spec fn blames_tree(error: ErrorView, tree: InputTree) -> bool {
    error is ValueConversion && error->ValueConversion_tree == tree
}

/// The content of the context that a context document stands for: no
/// attributes for the empty text, otherwise what the engine reads from the
/// document, and nothing where the document cannot be converted.
pub open spec fn context_stood_for(context: Seq<char>) -> Option<Map<Seq<char>, Seq<char>>> {
    if context.len() == 0 {
        Some(no_attributes())
    } else {
        context_of(context)
    }
}

/// Whether an engine request asks for exactly these three parties, in the
/// context that the document stands for.
pub open spec fn asks(
    request: cedar_policy::Request,
    principal: Seq<char>,
    action: Seq<char>,
    resource: Seq<char>,
    context: Seq<char>,
) -> bool {
    &&& parties(request) == (principal, action, resource)
    &&& context_stood_for(context) == Some(request_context(request))
}

/// Whether two texts hold the same characters.
fn same_text(first: &str, second: &str) -> (r: bool)
    ensures
        r == (first@ == second@),
{
    let a = first.to_owned();
    let b = second.to_owned();
    a == b
}

/// A request: who asks to do what to which resource, in which context.
#[derive(Debug)]
pub struct AuthRequest {
    principal: String,
    action: String,
    resource: String,
    inner: cedar_policy::Request,
}

impl AuthRequest {
    /// The principal's identifier as it was given.
    pub closed spec fn principal(&self) -> Seq<char> {
        self.principal@
    }

    /// The action's identifier as it was given.
    pub closed spec fn action(&self) -> Seq<char> {
        self.action@
    }

    /// The resource's identifier as it was given.
    pub closed spec fn resource(&self) -> Seq<char> {
        self.resource@
    }

    /// Builds a request from identifier texts and a JSON object of context
    /// attributes. An empty `context` stands for the empty record.
    ///
    /// The first malformed identifier, in the order principal, action,
    /// resource, is reported as [`AuthError::Identifier`]. With three
    /// well-formed identifiers the only possible failure is a non-empty
    /// context that the engine refuses; a document that cannot be converted
    /// is always refused. A request that is returned asks, of the engine too,
    /// for exactly the three parties given, in the context that the document
    /// stands for.
    pub fn new(principal: &str, action: &str, resource: &str, context: &str) -> (r: Result<
        AuthRequest,
        AuthError,
    >)
        ensures
            match first_bad_part(principal@, action@, resource@) {
                Some(part) => r is Err && blames_part(r->Err_0@, part),
                None => match r {
                    Ok(request) => request.principal() == principal@ && request.action() == action@
                        && request.resource() == resource@ && asks(
                        request.engine_request(),
                        principal@,
                        action@,
                        resource@,
                        context@,
                    ),
                    Err(e) => context@.len() > 0 && blames_tree(e@, InputTree::Context),
                },
            },
            context_stood_for(context@) is None ==> r is Err,
    {
        let p = match parse_uid(principal) {
            Ok(uid) => uid,
            Err(detail) => {
                return Err(AuthError::Identifier { part: RequestPart::Principal, detail });
            },
        };
        let a = match parse_uid(action) {
            Ok(uid) => uid,
            Err(detail) => {
                return Err(AuthError::Identifier { part: RequestPart::Action, detail });
            },
        };
        let r = match parse_uid(resource) {
            Ok(uid) => uid,
            Err(detail) => {
                return Err(AuthError::Identifier { part: RequestPart::Resource, detail });
            },
        };
        let c = if context.is_empty() {
            empty_context()
        } else {
            match parse_context(context) {
                Ok(c) => c,
                Err(e) => {
                    return Err(
                        AuthError::ValueConversion {
                            tree: InputTree::Context,
                            detail: e.to_string(),
                        },
                    );
                },
            }
        };
        match build_request(p, a, r, c) {
            Ok(inner) => Ok(
                AuthRequest {
                    principal: principal.to_owned(),
                    action: action.to_owned(),
                    resource: resource.to_owned(),
                    inner,
                },
            ),
            Err(detail) => Err(AuthError::ValueConversion { tree: InputTree::Context, detail }),
        }
    }

    /// The principal's identifier as it was given.
    pub fn principal_text(&self) -> (r: &String)
        ensures
            r@ == self.principal(),
    {
        &self.principal
    }

    /// The action's identifier as it was given.
    pub fn action_text(&self) -> (r: &String)
        ensures
            r@ == self.action(),
    {
        &self.action
    }

    /// The resource's identifier as it was given.
    pub fn resource_text(&self) -> (r: &String)
        ensures
            r@ == self.resource(),
    {
        &self.resource
    }

    /// The request as the engine evaluates it.
    pub closed spec fn engine_request(&self) -> cedar_policy::Request {
        self.inner
    }

    pub(crate) fn inner(&self) -> (r: &cedar_policy::Request)
        ensures
            *r == self.engine_request(),
    {
        &self.inner
    }
}

/// The entities a request may refer to, with their attributes and parents.
#[derive(Debug)]
pub struct EntityStore {
    inner: cedar_policy::Entities,
}

/// The content of an entity store.
pub struct StoreView {
    /// The identifier of each entity with the identifiers of all its ancestors.
    pub ancestors: Map<Seq<char>, Set<Seq<char>>>,
    /// The identifier of each entity with its attributes, each under its
    /// name and in printed form.
    pub attributes: Map<Seq<char>, Map<Seq<char>, Seq<char>>>,
}

/// The content of a store as the engine holds it.
pub open spec fn store_view(store: cedar_policy::Entities) -> StoreView {
    StoreView { ancestors: hierarchy(store), attributes: attributes(store) }
}

/// The content of the store that an entity document stands for: no entity
/// for the empty text, otherwise what the engine reads from the document. A
/// document stands for nothing where it is longer than the bound or cannot
/// be converted; one whose parent edges form a cycle cannot.
pub open spec fn stored_by(entities: Seq<char>) -> Option<StoreView> {
    if entities.len() == 0 {
        Some(StoreView { ancestors: nothing_held(), attributes: nothing_known() })
    } else if !entities_within_limits(entities) {
        None
    } else {
        match (hierarchy_of(entities), attributes_of(entities)) {
            (Some(ancestors), Some(attributes)) => Some(StoreView { ancestors, attributes }),
            _ => None,
        }
    }
}

/// In a store whose ancestors are closed and free of cycles, two entities
/// that are in each other are one and the same: the members of a cycle are
/// never held as each other's ancestors.
pub proof fn lemma_membership_is_antisymmetric(
    held: Map<Seq<char>, Set<Seq<char>>>,
    first: Seq<char>,
    second: Seq<char>,
)
    requires
        closed_without_cycle(held),
        is_in_spec(held, first, second),
        is_in_spec(held, second, first),
    ensures
        first == second,
{
    if first != second {
        assert(held[first].contains(second) && held[second].contains(first));
        assert(held[first].contains(first));
    }
}

/// In a store whose ancestors are closed, membership carries over: what is
/// in an entity is in everything that entity is in.
pub proof fn lemma_membership_is_transitive(
    held: Map<Seq<char>, Set<Seq<char>>>,
    first: Seq<char>,
    second: Seq<char>,
    third: Seq<char>,
)
    requires
        closed_without_cycle(held),
        held.contains_key(second) || first == second || second == third,
        is_in_spec(held, first, second),
        is_in_spec(held, second, third),
    ensures
        is_in_spec(held, first, third),
{
    if first != second && second != third {
        assert(held[first].contains(second) && held[second].contains(third));
    }
}

/// Whether `child` is `candidate` itself, or a store with content `held`
/// holds `child` and records `candidate` among its ancestors.
pub open spec fn is_in_spec(
    held: Map<Seq<char>, Set<Seq<char>>>,
    child: Seq<char>,
    candidate: Seq<char>,
) -> bool {
    child == candidate || (held.contains_key(child) && held[child].contains(candidate))
}

impl View for EntityStore {
    type V = StoreView;

    /// Each entity's identifier with its ancestors and with its attributes.
    open spec fn view(&self) -> StoreView {
        store_view(self.engine_store())
    }
}

impl EntityStore {
    /// The store as the engine evaluates it.
    pub closed spec fn engine_store(&self) -> cedar_policy::Entities {
        self.inner
    }

    /// Builds a store from a JSON array of entity records. An empty
    /// `entities` stands for the empty store and always succeeds.
    ///
    /// A store that is returned holds what the document stands for, with
    /// ancestors that are closed and free of cycles. The only possible
    /// failure is a non-empty document; one that is longer than the bound or
    /// cannot be converted is always refused. A document whose parent edges
    /// form a cycle is among those: no store is built of it, so the members of
    /// a cycle are never held as each other's ancestors.
    pub fn build(entities: &str) -> (r: Result<EntityStore, AuthError>)
        ensures
            match r {
                Ok(store) => stored_by(entities@) == Some(store@) && closed_without_cycle(
                    store@.ancestors,
                ),
                Err(e) => entities@.len() > 0 && blames_tree(e@, InputTree::Entities),
            },
            stored_by(entities@) is None ==> r is Err,
            !entities_within_limits(entities@) ==> r is Err,
    {
        if entities.is_empty() {
            Ok(EntityStore { inner: empty_entities() })
        } else if entities.as_bytes().len() > MAX_ENTITY_BYTES {
            Err(
                AuthError::ValueConversion {
                    tree: InputTree::Entities,
                    detail: "the document is too long".to_owned(),
                },
            )
        } else {
            match parse_entities(entities) {
                Ok(inner) => Ok(EntityStore { inner }),
                Err(e) => Err(
                    AuthError::ValueConversion { tree: InputTree::Entities, detail: e.to_string() },
                ),
            }
        }
    }

    /// Whether `child` is `candidate` itself or has it as a direct or
    /// transitive parent in this store.
    ///
    /// Answers exactly when both texts are well-formed entity identifiers.
    /// Every entity is in itself, whether the store knows it or not. The
    /// engine refuses a document whose parent edges form a cycle, so no store
    /// holds one.
    pub fn is_in(&self, child: &str, candidate: &str) -> (r: Option<bool>)
        ensures
            r is Some <==> uid_parses(child@) && uid_parses(candidate@),
            r matches Some(found) ==> found == is_in_spec(self@.ancestors, child@, candidate@),
    {
        let descendant = match parse_uid(child) {
            Ok(uid) => uid,
            Err(_) => {
                return None;
            },
        };
        let ancestor = match parse_uid(candidate) {
            Ok(uid) => uid,
            Err(_) => {
                return None;
            },
        };
        let found = is_ancestor(&self.inner, &ancestor, &descendant);
        Some(found || same_text(child, candidate))
    }

    pub(crate) fn inner(&self) -> (r: &cedar_policy::Entities)
        ensures
            *r == self.engine_store(),
    {
        &self.inner
    }
}

} // verus!
