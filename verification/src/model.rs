//! Plain data shared by every part of the library.

use vstd::prelude::*;
use vstd::string::StringExecFns;

verus! {

/// The outcome of an authorization request.
#[derive(Clone, Copy, Debug, PartialEq, Eq, Structural)]
pub enum Decision {
    Allow,
    Deny,
}

/// The verdict a policy contributes when it is satisfied.
#[derive(Clone, Copy, Debug, PartialEq, Eq, Structural)]
pub enum Effect {
    Permit,
    Forbid,
}

/// One of the three identified parties of a request.
#[derive(Clone, Copy, Debug, PartialEq, Eq, Structural)]
pub enum RequestPart {
    Principal,
    Action,
    Resource,
}

/// One of the two JSON documents that accompany a request.
#[derive(Clone, Copy, Debug, PartialEq, Eq, Structural)]
pub enum InputTree {
    Context,
    Entities,
}

/// A policy as the caller supplies it: an identifier and the policy text.
#[derive(Clone, Debug)]
pub struct CedarPolicy {
    pub id: String,
    pub policy: String,
}

/// The mathematical content of a [`CedarPolicy`].
pub struct PolicyView {
    pub id: Seq<char>,
    pub text: Seq<char>,
}

impl View for CedarPolicy {
    type V = PolicyView;

    open spec fn view(&self) -> PolicyView {
        PolicyView { id: self.id@, text: self.policy@ }
    }
}

/// The contents of a list of policies, in the same order.
pub open spec fn policy_views(policies: Seq<CedarPolicy>) -> Seq<PolicyView> {
    policies.map_values(|p: CedarPolicy| p@)
}

/// Why an input was rejected, or why a policy was skipped during evaluation.
///
/// `detail` carries the engine's own wording and is informational only.
#[derive(Clone, Debug)]
pub enum AuthError {
    /// The text of the policy with this id is not a well-formed policy.
    /// `position` is the byte offset the engine blames, when it names one.
    Parse { policy_id: String, position: Option<usize>, detail: String },
    /// The principal, action or resource text is not a well-formed entity identifier.
    Identifier { part: RequestPart, detail: String },
    /// The context or the entity document could not be converted.
    ValueConversion { tree: InputTree, detail: String },
    /// A policy id that an earlier policy of the same set already uses.
    DuplicateId { policy_id: String },
    /// Evaluating the policy with this id failed; the policy counts as not satisfied.
    Evaluation { policy_id: String, detail: String },
}

/// The mathematical content of an [`AuthError`]: the same variants over character sequences.
pub enum ErrorView {
    Parse { policy_id: Seq<char>, position: Option<usize>, detail: Seq<char> },
    Identifier { part: RequestPart, detail: Seq<char> },
    ValueConversion { tree: InputTree, detail: Seq<char> },
    DuplicateId { policy_id: Seq<char> },
    Evaluation { policy_id: Seq<char>, detail: Seq<char> },
}

impl View for AuthError {
    type V = ErrorView;

    open spec fn view(&self) -> ErrorView {
        match *self {
            AuthError::Parse { policy_id, position, detail } => ErrorView::Parse {
                policy_id: policy_id@,
                position,
                detail: detail@,
            },
            AuthError::Identifier { part, detail } => ErrorView::Identifier {
                part,
                detail: detail@,
            },
            AuthError::ValueConversion { tree, detail } => ErrorView::ValueConversion {
                tree,
                detail: detail@,
            },
            AuthError::DuplicateId { policy_id } => ErrorView::DuplicateId {
                policy_id: policy_id@,
            },
            AuthError::Evaluation { policy_id, detail } => ErrorView::Evaluation {
                policy_id: policy_id@,
                detail: detail@,
            },
        }
    }
}

/// The character for a decimal digit.
pub open spec fn digit_char(digit: nat) -> char {
    if digit == 0 {
        '0'
    } else if digit == 1 {
        '1'
    } else if digit == 2 {
        '2'
    } else if digit == 3 {
        '3'
    } else if digit == 4 {
        '4'
    } else if digit == 5 {
        '5'
    } else if digit == 6 {
        '6'
    } else if digit == 7 {
        '7'
    } else if digit == 8 {
        '8'
    } else {
        '9'
    }
}

/// A number in decimal, without sign or leading zeros.
pub open spec fn decimal_spec(n: nat) -> Seq<char>
    decreases n,
{
    if n < 10 {
        seq![digit_char(n)]
    } else {
        decimal_spec(n / 10).push(digit_char(n % 10))
    }
}

/// The text of one decimal digit.
fn digit_text(digit: usize) -> (r: &'static str)
    requires
        digit < 10,
    ensures
        r@ == seq![digit_char(digit as nat)],
{
    proof {
        reveal_strlit("0");
        reveal_strlit("1");
        reveal_strlit("2");
        reveal_strlit("3");
        reveal_strlit("4");
        reveal_strlit("5");
        reveal_strlit("6");
        reveal_strlit("7");
        reveal_strlit("8");
        reveal_strlit("9");
    }
    let text = if digit == 0 {
        "0"
    } else if digit == 1 {
        "1"
    } else if digit == 2 {
        "2"
    } else if digit == 3 {
        "3"
    } else if digit == 4 {
        "4"
    } else if digit == 5 {
        "5"
    } else if digit == 6 {
        "6"
    } else if digit == 7 {
        "7"
    } else if digit == 8 {
        "8"
    } else {
        "9"
    };
    assert(text@ =~= seq![digit_char(digit as nat)]);
    text
}

/// Writes a number in decimal.
pub fn decimal(n: usize) -> (r: String)
    ensures
        r@ == decimal_spec(n as nat),
    decreases n,
{
    if n < 10 {
        String::from_str(digit_text(n))
    } else {
        let mut text = decimal(n / 10);
        text.append(digit_text(n % 10));
        assert(text@ =~= decimal_spec((n / 10) as nat).push(digit_char((n % 10) as nat)));
        text
    }
}

/// The name of a request part as it appears in messages.
pub open spec fn part_name(part: RequestPart) -> Seq<char> {
    match part {
        RequestPart::Principal => "principal"@,
        RequestPart::Action => "action"@,
        RequestPart::Resource => "resource"@,
    }
}

/// The name of a JSON document as it appears in messages.
pub open spec fn tree_name(tree: InputTree) -> Seq<char> {
    match tree {
        InputTree::Context => "context"@,
        InputTree::Entities => "entities"@,
    }
}

/// The one-line message for an error.
pub open spec fn message_spec(error: ErrorView) -> Seq<char> {
    match error {
        ErrorView::Parse { policy_id, position, detail } => match position {
            Some(offset) => "policy `"@ + policy_id + "` is not well formed at byte "@
                + decimal_spec(offset as nat) + ": "@ + detail,
            None => "policy `"@ + policy_id + "` is not well formed: "@ + detail,
        },
        ErrorView::Identifier { part, detail } => part_name(part)
            + " is not an entity identifier: "@ + detail,
        ErrorView::ValueConversion { tree, detail } => tree_name(tree) + " cannot be converted: "@
            + detail,
        ErrorView::DuplicateId { policy_id } => "policy id `"@ + policy_id + "` is used twice"@,
        ErrorView::Evaluation { policy_id, detail } => "policy `"@ + policy_id
            + "` could not be evaluated: "@ + detail,
    }
}

impl AuthError {
    /// The error as one line of text.
    pub fn message(&self) -> (r: String)
        ensures
            r@ == message_spec(self@),
    {
        match self {
            AuthError::Parse { policy_id, position, detail } => {
                let mut text = String::from_str("policy `");
                text.append(policy_id.as_str());
                match position {
                    Some(offset) => {
                        text.append("` is not well formed at byte ");
                        text.append(decimal(*offset).as_str());
                        text.append(": ");
                    },
                    None => {
                        text.append("` is not well formed: ");
                    },
                }
                text.append(detail.as_str());
                text
            },
            AuthError::Identifier { part, detail } => {
                let mut text = match part {
                    RequestPart::Principal => String::from_str("principal"),
                    RequestPart::Action => String::from_str("action"),
                    RequestPart::Resource => String::from_str("resource"),
                };
                text.append(" is not an entity identifier: ");
                text.append(detail.as_str());
                text
            },
            AuthError::ValueConversion { tree, detail } => {
                let mut text = match tree {
                    InputTree::Context => String::from_str("context"),
                    InputTree::Entities => String::from_str("entities"),
                };
                text.append(" cannot be converted: ");
                text.append(detail.as_str());
                text
            },
            AuthError::DuplicateId { policy_id } => {
                let mut text = String::from_str("policy id `");
                text.append(policy_id.as_str());
                text.append("` is used twice");
                text
            },
            AuthError::Evaluation { policy_id, detail } => {
                let mut text = String::from_str("policy `");
                text.append(policy_id.as_str());
                text.append("` could not be evaluated: ");
                text.append(detail.as_str());
                text
            },
        }
    }

    /// A copy with the same content.
    pub fn duplicate(&self) -> (r: AuthError)
        ensures
            r@ == self@,
    {
        match self {
            AuthError::Parse { policy_id, position, detail } => AuthError::Parse {
                policy_id: policy_id.clone(),
                position: *position,
                detail: detail.clone(),
            },
            AuthError::Identifier { part, detail } => AuthError::Identifier {
                part: *part,
                detail: detail.clone(),
            },
            AuthError::ValueConversion { tree, detail } => AuthError::ValueConversion {
                tree: *tree,
                detail: detail.clone(),
            },
            AuthError::DuplicateId { policy_id } => AuthError::DuplicateId {
                policy_id: policy_id.clone(),
            },
            AuthError::Evaluation { policy_id, detail } => AuthError::Evaluation {
                policy_id: policy_id.clone(),
                detail: detail.clone(),
            },
        }
    }
}

/// The character sequences held by a sequence of strings, in the same order.
pub open spec fn texts(strings: Seq<String>) -> Seq<Seq<char>> {
    strings.map_values(|s: String| s@)
}

/// The contents of a sequence of errors, in the same order.
pub open spec fn error_views(errors: Seq<AuthError>) -> Seq<ErrorView> {
    errors.map_values(|e: AuthError| e@)
}

/// What an authorization call reports.
#[derive(Debug)]
pub struct CedarResult {
    /// The decision.
    pub result: Decision,
    /// Ids of the satisfied policies whose effect settled the decision, in declaration order.
    pub determining_policy_ids: Vec<String>,
    /// Ids of satisfied permit policies that a satisfied forbid policy overrode,
    /// in declaration order. Diagnostic only.
    pub shadowed_policy_ids: Vec<String>,
    /// What went wrong, in the order it was found.
    pub errors: Vec<AuthError>,
}

/// The mathematical content of a [`CedarResult`].
pub struct ResultView {
    pub decision: Decision,
    pub determining: Seq<Seq<char>>,
    pub shadowed: Seq<Seq<char>>,
    pub errors: Seq<ErrorView>,
}

impl View for CedarResult {
    type V = ResultView;

    open spec fn view(&self) -> ResultView {
        ResultView {
            decision: self.result,
            determining: texts(self.determining_policy_ids@),
            shadowed: texts(self.shadowed_policy_ids@),
            errors: error_views(self.errors@),
        }
    }
}

/// The one-line messages of a sequence of errors, in the same order.
pub open spec fn messages_of(errors: Seq<ErrorView>) -> Seq<Seq<char>> {
    errors.map_values(|e: ErrorView| message_spec(e))
}

impl CedarResult {
    /// The errors as one line of text each, in the order they were found.
    pub fn error_messages(&self) -> (r: Vec<String>)
        ensures
            texts(r@) == messages_of(self@.errors),
    {
        let mut messages: Vec<String> = Vec::new();
        let mut i: usize = 0;
        while i < self.errors.len()
            invariant
                i <= self.errors.len(),
                texts(messages@) =~= messages_of(self@.errors).take(i as int),
            decreases self.errors.len() - i,
        {
            let ghost before = messages@;
            let message = self.errors[i].message();
            messages.push(message);
            assert(texts(messages@) =~= texts(before).push(message@));
            assert(messages_of(self@.errors)[i as int] == message_spec(self.errors@[i as int]@));
            i += 1;
        }
        messages
    }
}

} // verus!
