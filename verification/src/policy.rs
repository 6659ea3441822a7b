//! Compiled policies and policy sets.

use vstd::prelude::*;
use crate::engine::{declared_effect, parse_policy, policy_parses, policy_source};
use crate::model::{policy_views, texts, AuthError, CedarPolicy, Effect, ErrorView, PolicyView};
use crate::limits::{excess_of, find_excess, within_limits, Excess, MAX_POLICY_BYTES};
use crate::search::{least_from, lemma_least_from};

verus! {

/// Whether `text` can be compiled as a policy under `id`: it keeps the bounds
/// on length and nesting, and the engine's parser accepts it.
pub open spec fn well_formed_policy(id: Seq<char>, text: Seq<char>) -> bool {
    within_limits(text) && policy_parses(id, text)
}

/// The offset that the report of an excess names: the first byte beyond the
/// length bound, or the bracket that nests too deep.
pub open spec fn excess_offset(excess: Excess) -> usize {
    match excess {
        Excess::Length => MAX_POLICY_BYTES,
        Excess::Nesting { offset } => offset,
    }
}

/// A policy that the engine has parsed, with the id and effect it was stored under.
#[derive(Debug)]
pub struct CompiledPolicy {
    id: String,
    effect: Effect,
    inner: cedar_policy::Policy,
}

impl CompiledPolicy {
    /// The id the policy was compiled under.
    pub closed spec fn spec_id(&self) -> Seq<char> {
        self.id@
    }

    /// The policy's effect.
    pub closed spec fn spec_effect(&self) -> Effect {
        self.effect
    }

    /// Parses `text` as a single static policy to be known as `id`.
    ///
    /// Succeeds exactly when the text keeps the bounds on length and nesting
    /// and the engine's parser accepts it, and then with the effect that the
    /// text declares. A rejection comes back as [`AuthError::Parse`] carrying
    /// `id`; for a text beyond the bounds it names the offset of the excess.
    pub fn compile(id: &str, text: &str) -> (r: Result<CompiledPolicy, AuthError>)
        ensures
            r.is_ok() == well_formed_policy(id@, text@),
            r matches Ok(p) ==> p.spec_id() == id@ && p.spec_effect() == declared_effect(
                id@,
                text@,
            ),
            r matches Ok(p) ==> policy_source(p.engine_policy()) == (id@, text@),
            r matches Err(e) ==> e@ is Parse && e@->Parse_policy_id == id@,
            r matches Err(e) ==> (excess_of(text@) matches Some(excess)
                ==> e@->Parse_position == Some(excess_offset(excess))),
    {
        match find_excess(text) {
            Some(Excess::Length) => {
                return Err(
                    AuthError::Parse {
                        policy_id: id.to_owned(),
                        position: Some(MAX_POLICY_BYTES),
                        detail: "the text is too long".to_owned(),
                    },
                );
            },
            Some(Excess::Nesting { offset }) => {
                return Err(
                    AuthError::Parse {
                        policy_id: id.to_owned(),
                        position: Some(offset),
                        detail: "brackets are nested too deeply".to_owned(),
                    },
                );
            },
            None => {},
        }
        match parse_policy(id, text) {
            Ok(parsed) => Ok(
                CompiledPolicy { id: id.to_owned(), effect: parsed.effect, inner: parsed.policy },
            ),
            Err(failure) => Err(
                AuthError::Parse {
                    policy_id: id.to_owned(),
                    position: failure.position,
                    detail: failure.detail,
                },
            ),
        }
    }

    /// The id the policy was compiled under.
    pub fn id(&self) -> (r: &String)
        ensures
            r@ == self.spec_id(),
    {
        &self.id
    }

    /// The policy's effect.
    pub fn effect(&self) -> (r: Effect)
        ensures
            r == self.spec_effect(),
    {
        self.effect
    }

    /// The policy as the engine evaluates it.
    pub closed spec fn engine_policy(&self) -> cedar_policy::Policy {
        self.inner
    }

    pub(crate) fn inner(&self) -> (r: &cedar_policy::Policy)
        ensures
            *r == self.engine_policy(),
    {
        &self.inner
    }
}

/// The ids of the policies as supplied, in the same order.
pub open spec fn raw_ids(raw: Seq<PolicyView>) -> Seq<Seq<char>> {
    raw.map_values(|p: PolicyView| p.id)
}

/// The effects that the policies as supplied declare, in the same order.
pub open spec fn raw_effects(raw: Seq<PolicyView>) -> Seq<Effect> {
    raw.map_values(|p: PolicyView| declared_effect(p.id, p.text))
}

/// Holds of the positions whose policy text is not well formed.
pub open spec fn malformed(raw: Seq<PolicyView>) -> spec_fn(int) -> bool {
    |i: int| !well_formed_policy(raw[i].id, raw[i].text)
}

/// Holds of the positions whose id already occurs at an earlier position.
pub open spec fn repeated(ids: Seq<Seq<char>>) -> spec_fn(int) -> bool {
    |j: int| exists|i: int| 0 <= i < j && ids[i] == ids[j]
}

/// The reason a list of policies cannot form a set.
pub enum Defect {
    /// The policy at `index` is the first whose text does not parse.
    Malformed { index: int },
    /// Every text parses, and the policy at `index` is the first to reuse an earlier id.
    Duplicate { index: int },
}

/// The defect that stops a list of policies from forming a set: the first
/// malformed text if there is one, else the first repeated id, else nothing.
pub open spec fn first_defect(raw: Seq<PolicyView>) -> Option<Defect> {
    match least_from(malformed(raw), 0, raw.len() as int) {
        Some(index) => Some(Defect::Malformed { index }),
        None => match least_from(repeated(raw_ids(raw)), 0, raw.len() as int) {
            Some(index) => Some(Defect::Duplicate { index }),
            None => None,
        },
    }
}

/// Whether `error` is the report of `defect` in the list `raw`.
pub open spec fn reports(error: ErrorView, defect: Defect, raw: Seq<PolicyView>) -> bool {
    match defect {
        Defect::Malformed { index } => error is Parse && error->Parse_policy_id == raw[index].id,
        Defect::Duplicate { index } => error == (ErrorView::DuplicateId {
            policy_id: raw[index].id,
        }),
    }
}

/// A list of policies is free of defects exactly when every text is well
/// formed and no id occurs twice.
pub proof fn lemma_no_defect(raw: Seq<PolicyView>)
    ensures
        first_defect(raw) is None <==> ((forall|i: int|
            0 <= i < raw.len() ==> well_formed_policy(#[trigger] raw[i].id, raw[i].text))
            && raw_ids(raw).no_duplicates()),
{
    let n = raw.len() as int;
    let ids = raw_ids(raw);
    lemma_least_from(malformed(raw), 0, n);
    lemma_least_from(repeated(ids), 0, n);
    if least_from(malformed(raw), 0, n) is None {
        assert forall|i: int| 0 <= i < n implies well_formed_policy(
            #[trigger] raw[i].id,
            raw[i].text,
        ) by {
            assert(!malformed(raw)(i));
        }
        if least_from(repeated(ids), 0, n) is None {
            assert forall|i: int, j: int| 0 <= i < n && 0 <= j < n && i != j implies ids[i]
                != ids[j] by {
                if ids[i] == ids[j] {
                    if i < j {
                        assert(repeated(ids)(j));
                    } else {
                        assert(repeated(ids)(i));
                    }
                }
            }
        }
    }
}

/// The outcome of compiling a list of policies: the set, or why there is none.
pub type Compiled = Result<CompiledSet, AuthError>;

/// The ids and texts of the policies as supplied, in the same order.
pub open spec fn raw_sources(raw: Seq<PolicyView>) -> Seq<(Seq<char>, Seq<char>)> {
    raw.map_values(|p: PolicyView| (p.id, p.text))
}

/// The ids and texts that engine policies were made of, in the same order.
pub open spec fn sources(engine: Seq<cedar_policy::Policy>) -> Seq<(Seq<char>, Seq<char>)> {
    engine.map_values(|p: cedar_policy::Policy| policy_source(p))
}

/// Whether `outcome` is what compiling the list `raw` returns: when the list
/// has no defect, a set of one policy per entry, each made of the id and text
/// given and with the effect declared; otherwise the report of its first
/// defect.
pub open spec fn compiles_to(raw: Seq<PolicyView>, outcome: Compiled) -> bool {
    match outcome {
        Ok(set) => first_defect(raw) is None && set.ids() == raw_ids(raw)
            && set.ids().no_duplicates() && set.effects() == raw_effects(raw) && sources(
            set.engine_policies(),
        ) == raw_sources(raw),
        Err(e) => first_defect(raw) is Some && reports(e@, first_defect(raw)->0, raw),
    }
}

/// Policies in declaration order, no two under the same id.
#[derive(Debug)]
pub struct CompiledSet {
    policies: Vec<CompiledPolicy>,
}

/// The ids of compiled policies, in the same order.
pub closed spec fn compiled_ids(policies: Seq<CompiledPolicy>) -> Seq<Seq<char>> {
    policies.map_values(|p: CompiledPolicy| p.spec_id())
}

/// The engine's policies behind compiled policies, in the same order.
pub closed spec fn compiled_engine(policies: Seq<CompiledPolicy>) -> Seq<cedar_policy::Policy> {
    policies.map_values(|p: CompiledPolicy| p.engine_policy())
}

/// The effects of compiled policies, in the same order.
pub closed spec fn compiled_effects(policies: Seq<CompiledPolicy>) -> Seq<Effect> {
    policies.map_values(|p: CompiledPolicy| p.spec_effect())
}

/// Finds the first policy whose id an earlier policy already uses.
fn first_repeat(policies: &Vec<CompiledPolicy>) -> (r: Option<usize>)
    ensures
        match r {
            Some(j) => j < policies.len() && least_from(
                repeated(compiled_ids(policies@)),
                0,
                policies.len() as int,
            ) == Some(j as int),
            None => least_from(repeated(compiled_ids(policies@)), 0, policies.len() as int)
                is None,
        },
{
    let ghost ids = compiled_ids(policies@);
    let ghost n = policies.len() as int;
    let mut j: usize = 0;
    while j < policies.len()
        invariant
            j <= policies.len(),
            ids == compiled_ids(policies@),
            n == policies.len(),
            least_from(repeated(ids), 0, n) == least_from(repeated(ids), j as int, n),
        decreases policies.len() - j,
    {
        let mut i: usize = 0;
        while i < j
            invariant
                i <= j < policies.len(),
                ids == compiled_ids(policies@),
                n == policies.len(),
                least_from(repeated(ids), 0, n) == least_from(repeated(ids), j as int, n),
                forall|k: int| 0 <= k < i ==> ids[k] != ids[j as int],
            decreases j - i,
        {
            if policies[i].id == policies[j].id {
                assert(ids[i as int] == ids[j as int]);
                return Some(j);
            }
            i += 1;
        }
        j += 1;
    }
    None
}

impl CompiledSet {
    #[verifier::type_invariant]
    spec fn ids_distinct(self) -> bool {
        compiled_ids(self.policies@).no_duplicates()
    }

    /// The ids of the policies, in declaration order.
    pub closed spec fn ids(&self) -> Seq<Seq<char>> {
        compiled_ids(self.policies@)
    }

    /// The effects of the policies, in declaration order.
    pub closed spec fn effects(&self) -> Seq<Effect> {
        compiled_effects(self.policies@)
    }

    /// The policies as the engine evaluates them, in declaration order.
    pub closed spec fn engine_policies(&self) -> Seq<cedar_policy::Policy> {
        compiled_engine(self.policies@)
    }

    /// Compiles the policies in the order given.
    ///
    /// Succeeds exactly when the list has no defect; the set then holds one
    /// policy per entry, under the ids given. Otherwise the error reports the
    /// defect: a malformed text takes precedence over a repeated id.
    pub fn compile(raw: &[CedarPolicy]) -> (r: Compiled)
        ensures
            compiles_to(policy_views(raw@), r),
    {
        let ghost n = raw.len() as int;
        let ghost views = policy_views(raw@);
        let mut policies: Vec<CompiledPolicy> = Vec::new();
        let mut i: usize = 0;
        while i < raw.len()
            invariant
                i <= raw.len(),
                n == raw.len(),
                policies.len() == i,
                views == policy_views(raw@),
                least_from(malformed(views), 0, n) == least_from(malformed(views), i as int, n),
                compiled_ids(policies@) =~= raw_ids(views).take(i as int),
                compiled_effects(policies@) =~= raw_effects(views).take(i as int),
                sources(compiled_engine(policies@)) =~= raw_sources(views).take(i as int),
            decreases raw.len() - i,
        {
            match CompiledPolicy::compile(raw[i].id.as_str(), raw[i].policy.as_str()) {
                Ok(compiled) => {
                    policies.push(compiled);
                },
                Err(e) => {
                    return Err(e);
                },
            }
            i += 1;
        }
        assert(raw_ids(views).take(n) == raw_ids(views));
        assert(raw_effects(views).take(n) == raw_effects(views));
        assert(raw_sources(views).take(n) == raw_sources(views));
        match first_repeat(&policies) {
            Some(j) => Err(AuthError::DuplicateId { policy_id: raw[j].id.clone() }),
            None => {
                proof {
                    lemma_no_defect(views);
                }
                Ok(CompiledSet { policies })
            },
        }
    }

    /// The number of policies.
    pub fn len(&self) -> (n: usize)
        ensures
            n == self.ids().len(),
            n == self.effects().len(),
            n == self.engine_policies().len(),
    {
        self.policies.len()
    }

    /// The ids of the policies, in declaration order.
    pub fn policy_ids(&self) -> (r: Vec<String>)
        ensures
            texts(r@) == self.ids(),
            self.ids().no_duplicates(),
    {
        proof {
            use_type_invariant(self);
        }
        let mut ids: Vec<String> = Vec::new();
        let mut i: usize = 0;
        while i < self.policies.len()
            invariant
                i <= self.policies.len(),
                texts(ids@) =~= compiled_ids(self.policies@).take(i as int),
            decreases self.policies.len() - i,
        {
            let ghost before = ids@;
            ids.push(self.policies[i].id.clone());
            assert(texts(ids@) =~= texts(before).push(self.policies[i as int].id@));
            i += 1;
        }
        ids
    }

    pub(crate) fn get(&self, i: usize) -> (p: &CompiledPolicy)
        requires
            i < self.ids().len(),
        ensures
            p.spec_id() == self.ids()[i as int],
            p.spec_effect() == self.effects()[i as int],
            p.engine_policy() == self.engine_policies()[i as int],
    {
        &self.policies[i]
    }
}

} // verus!
