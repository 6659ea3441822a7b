use cedar_sharp::authorizer::{authorize_compiled, decide};
use cedar_sharp::policy::CompiledSet;
use cedar_sharp::request::{AuthRequest, EntityStore};
use cedar_sharp::{authorize, AuthError, CedarPolicy, CedarResult, Decision, InputTree};

fn policy(id: &str, text: &str) -> CedarPolicy {
    CedarPolicy { id: String::from(id), policy: String::from(text) }
}

fn alice_views_file() -> CedarPolicy {
    policy(
        "alice-view",
        r#"permit(principal == User::"alice", action == Action::"view", resource == File::"93");"#,
    )
}

fn ids(result: &CedarResult) -> Vec<&str> {
    result.determining_policy_ids.iter().map(|s| s.as_str()).collect()
}

fn shadowed(result: &CedarResult) -> Vec<&str> {
    result.shadowed_policy_ids.iter().map(|s| s.as_str()).collect()
}

#[test]
fn exact_match_allows_and_names_the_policy() {
    let result = authorize(
        &[alice_views_file()],
        r#"User::"alice""#,
        r#"Action::"view""#,
        r#"File::"93""#,
        "",
        "",
    );
    assert_eq!(result.result, Decision::Allow);
    assert_eq!(ids(&result), vec!["alice-view"]);
    assert!(result.shadowed_policy_ids.is_empty());
    assert!(result.errors.is_empty());
}

#[test]
fn other_principal_is_denied_by_default() {
    let result = authorize(
        &[alice_views_file()],
        r#"User::"bob""#,
        r#"Action::"view""#,
        r#"File::"93""#,
        "",
        "",
    );
    assert_eq!(result.result, Decision::Deny);
    assert!(result.determining_policy_ids.is_empty());
    assert!(result.shadowed_policy_ids.is_empty());
    assert!(result.errors.is_empty());
}

#[test]
fn empty_policy_list_denies() {
    let result = authorize(&[], r#"User::"alice""#, r#"Action::"view""#, r#"File::"93""#, "", "");
    assert_eq!(result.result, Decision::Deny);
    assert!(result.determining_policy_ids.is_empty());
    assert!(result.errors.is_empty());
}

#[test]
fn context_condition_decides() {
    let guarded = policy(
        "mfa",
        r#"permit(principal, action, resource) when { context.mfa_authenticated == true };"#,
    );
    let yes = authorize(
        &[guarded.clone()],
        r#"User::"alice""#,
        r#"Action::"view""#,
        r#"File::"93""#,
        r#"{"mfa_authenticated":true}"#,
        "",
    );
    assert_eq!(yes.result, Decision::Allow);
    assert_eq!(ids(&yes), vec!["mfa"]);
    let no = authorize(
        &[guarded],
        r#"User::"alice""#,
        r#"Action::"view""#,
        r#"File::"93""#,
        r#"{"mfa_authenticated":false}"#,
        "",
    );
    assert_eq!(no.result, Decision::Deny);
    assert!(no.determining_policy_ids.is_empty());
    assert!(no.errors.is_empty());
}

#[test]
fn unless_condition_blocks_when_true() {
    let guarded = policy(
        "open",
        r#"permit(principal, action, resource) unless { context.locked == true };"#,
    );
    let locked = authorize(
        &[guarded.clone()],
        r#"User::"alice""#,
        r#"Action::"view""#,
        r#"File::"93""#,
        r#"{"locked":true}"#,
        "",
    );
    assert_eq!(locked.result, Decision::Deny);
    let open = authorize(
        &[guarded],
        r#"User::"alice""#,
        r#"Action::"view""#,
        r#"File::"93""#,
        r#"{"locked":false}"#,
        "",
    );
    assert_eq!(open.result, Decision::Allow);
}

const JUDGES: &str = r#"permit(principal in Role::"judges", action == Action::"view", resource == Photo::"peppers.jpg");"#;

#[test]
fn direct_parent_matches_scope() {
    let entities = r#"[
        { "uid": { "type": "User", "id": "Bob" }, "attrs": {}, "parents": [ { "type": "Role", "id": "judges" } ] },
        { "uid": { "type": "Role", "id": "judges" }, "attrs": {}, "parents": [] }
    ]"#;
    let result = authorize(
        &[policy("role", JUDGES)],
        r#"User::"Bob""#,
        r#"Action::"view""#,
        r#"Photo::"peppers.jpg""#,
        "",
        entities,
    );
    assert_eq!(result.result, Decision::Allow);
    assert_eq!(ids(&result), vec!["role"]);
}

#[test]
fn missing_parent_edge_does_not_match_scope() {
    let entities = r#"[
        { "uid": { "type": "User", "id": "Bob" }, "attrs": {}, "parents": [] },
        { "uid": { "type": "Role", "id": "judges" }, "attrs": {}, "parents": [] }
    ]"#;
    let result = authorize(
        &[policy("role", JUDGES)],
        r#"User::"Bob""#,
        r#"Action::"view""#,
        r#"Photo::"peppers.jpg""#,
        "",
        entities,
    );
    assert_eq!(result.result, Decision::Deny);
    assert!(result.determining_policy_ids.is_empty());
}

#[test]
fn transitive_parent_matches_scope() {
    let with_edge = r#"[
        { "uid": { "type": "User", "id": "Bob" }, "attrs": {}, "parents": [ { "type": "Team", "id": "jury" } ] },
        { "uid": { "type": "Team", "id": "jury" }, "attrs": {}, "parents": [ { "type": "Role", "id": "judges" } ] },
        { "uid": { "type": "Role", "id": "judges" }, "attrs": {}, "parents": [] }
    ]"#;
    let without_edge = r#"[
        { "uid": { "type": "User", "id": "Bob" }, "attrs": {}, "parents": [ { "type": "Team", "id": "jury" } ] },
        { "uid": { "type": "Team", "id": "jury" }, "attrs": {}, "parents": [] },
        { "uid": { "type": "Role", "id": "judges" }, "attrs": {}, "parents": [] }
    ]"#;
    let policies = [policy("role", JUDGES)];
    let yes = authorize(
        &policies,
        r#"User::"Bob""#,
        r#"Action::"view""#,
        r#"Photo::"peppers.jpg""#,
        "",
        with_edge,
    );
    assert_eq!(yes.result, Decision::Allow);
    let no = authorize(
        &policies,
        r#"User::"Bob""#,
        r#"Action::"view""#,
        r#"Photo::"peppers.jpg""#,
        "",
        without_edge,
    );
    assert_eq!(no.result, Decision::Deny);
}

#[test]
fn principal_is_in_itself() {
    let result = authorize(
        &[policy("self", r#"permit(principal in User::"Bob", action, resource);"#)],
        r#"User::"Bob""#,
        r#"Action::"view""#,
        r#"Photo::"peppers.jpg""#,
        "",
        "",
    );
    assert_eq!(result.result, Decision::Allow);
}

#[test]
fn forbid_overrides_permit_and_permit_is_shadowed() {
    let policies = [
        policy("allow-all", r#"permit(principal, action, resource);"#),
        policy("no-bob", r#"forbid(principal == User::"Bob", action, resource);"#),
        policy("allow-view", r#"permit(principal, action == Action::"view", resource);"#),
        policy("no-delete", r#"forbid(principal, action == Action::"delete", resource);"#),
    ];
    let result = authorize(
        &policies,
        r#"User::"Bob""#,
        r#"Action::"view""#,
        r#"Photo::"peppers.jpg""#,
        "",
        "",
    );
    assert_eq!(result.result, Decision::Deny);
    assert_eq!(ids(&result), vec!["no-bob"]);
    assert_eq!(shadowed(&result), vec!["allow-all", "allow-view"]);
    assert!(result.errors.is_empty());
}

#[test]
fn determining_ids_keep_declaration_order() {
    let policies = [
        policy("z", r#"permit(principal, action, resource);"#),
        policy("m", r#"permit(principal == User::"nobody", action, resource);"#),
        policy("a", r#"permit(principal, action, resource);"#),
        policy("k", r#"permit(principal, action, resource);"#),
    ];
    let result = authorize(
        &policies,
        r#"User::"Bob""#,
        r#"Action::"view""#,
        r#"Photo::"peppers.jpg""#,
        "",
        "",
    );
    assert_eq!(result.result, Decision::Allow);
    assert_eq!(ids(&result), vec!["z", "a", "k"]);
}

#[test]
fn repeated_evaluation_gives_identical_results() {
    let policies = [
        policy("allow-all", r#"permit(principal, action, resource);"#),
        policy("no-bob", r#"forbid(principal == User::"Bob", action, resource);"#),
        policy("broken", r#"permit(principal, action, resource) when { context.absent == 1 };"#),
        policy("allow-view", r#"permit(principal, action == Action::"view", resource);"#),
    ];
    let run = || {
        authorize(
            &policies,
            r#"User::"Bob""#,
            r#"Action::"view""#,
            r#"Photo::"peppers.jpg""#,
            r#"{"present": 1}"#,
            "",
        )
    };
    let first = run();
    for _ in 0..20 {
        let again = run();
        assert_eq!(again.result, first.result);
        assert_eq!(again.determining_policy_ids, first.determining_policy_ids);
        assert_eq!(again.shadowed_policy_ids, first.shadowed_policy_ids);
        let a: Vec<String> = again.errors.iter().map(|e| e.message()).collect();
        let b: Vec<String> = first.errors.iter().map(|e| e.message()).collect();
        assert_eq!(a, b);
    }
    assert_eq!(first.result, Decision::Deny);
    assert_eq!(ids(&first), vec!["no-bob"]);
}

#[test]
fn evaluation_error_skips_the_policy_and_is_recorded() {
    let policies = [
        policy("needs-attr", r#"permit(principal, action, resource) when { context.absent == 1 };"#),
        policy("plain", r#"permit(principal, action == Action::"view", resource);"#),
    ];
    let result = authorize(
        &policies,
        r#"User::"Bob""#,
        r#"Action::"view""#,
        r#"Photo::"peppers.jpg""#,
        "",
        "",
    );
    assert_eq!(result.result, Decision::Allow);
    assert_eq!(ids(&result), vec!["plain"]);
    assert_eq!(result.errors.len(), 1);
    match &result.errors[0] {
        AuthError::Evaluation { policy_id, detail } => {
            assert_eq!(policy_id, "needs-attr");
            assert!(!detail.is_empty());
        }
        other => panic!("unexpected error {:?}", other),
    }
}

#[test]
fn evaluation_error_alone_denies() {
    let result = authorize(
        &[policy("overflow", r#"permit(principal, action, resource) when { 9223372036854775807 + context.one == 0 };"#)],
        r#"User::"Bob""#,
        r#"Action::"view""#,
        r#"Photo::"peppers.jpg""#,
        r#"{"one": 1}"#,
        "",
    );
    assert_eq!(result.result, Decision::Deny);
    assert!(result.determining_policy_ids.is_empty());
    assert_eq!(result.errors.len(), 1);
    assert!(matches!(&result.errors[0], AuthError::Evaluation { policy_id, .. } if policy_id == "overflow"));
}

#[test]
fn has_never_errors() {
    let result = authorize(
        &[policy("has", r#"permit(principal, action, resource) when { !(context has absent) };"#)],
        r#"User::"Bob""#,
        r#"Action::"view""#,
        r#"Photo::"peppers.jpg""#,
        "",
        "",
    );
    assert_eq!(result.result, Decision::Allow);
    assert!(result.errors.is_empty());
}

#[test]
fn entity_attributes_are_read_from_the_store() {
    let entities = r#"[
        { "uid": { "type": "User", "id": "Bob" }, "attrs": { "level": 7 }, "parents": [] }
    ]"#;
    let policies = [policy("senior", r#"permit(principal, action, resource) when { principal.level >= 5 };"#)];
    let yes = authorize(&policies, r#"User::"Bob""#, r#"Action::"view""#, r#"Photo::"x""#, "", entities);
    assert_eq!(yes.result, Decision::Allow);
    let junior = r#"[
        { "uid": { "type": "User", "id": "Bob" }, "attrs": { "level": 2 }, "parents": [] }
    ]"#;
    let no = authorize(&policies, r#"User::"Bob""#, r#"Action::"view""#, r#"Photo::"x""#, "", junior);
    assert_eq!(no.result, Decision::Deny);
    assert!(no.errors.is_empty());
}

#[test]
fn staged_calls_agree_with_authorize() {
    let policies = [
        policy("allow-all", r#"permit(principal, action, resource);"#),
        policy("no-bob", r#"forbid(principal == User::"Bob", action, resource);"#),
    ];
    let set = CompiledSet::compile(&policies).expect("both policies are well formed");
    assert_eq!(set.len(), 2);
    assert_eq!(set.policy_ids(), vec![String::from("allow-all"), String::from("no-bob")]);
    let store = EntityStore::build("").expect("the empty store always builds");
    let request = AuthRequest::new(r#"User::"Ann""#, r#"Action::"view""#, r#"Photo::"x""#, "")
        .expect("identifiers are well formed");
    assert_eq!(request.principal_text(), r#"User::"Ann""#);
    assert_eq!(request.action_text(), r#"Action::"view""#);
    assert_eq!(request.resource_text(), r#"Photo::"x""#);
    let staged = decide(&set, &store, &request);
    assert_eq!(staged.result, Decision::Allow);
    assert_eq!(ids(&staged), vec!["allow-all"]);
    let compiled = Ok(set);
    let direct = authorize_compiled(&compiled, r#"User::"Bob""#, r#"Action::"view""#, r#"Photo::"x""#, "", "");
    assert_eq!(direct.result, Decision::Deny);
    assert_eq!(ids(&direct), vec!["no-bob"]);
    assert_eq!(shadowed(&direct), vec!["allow-all"]);
}

#[test]
fn cyclic_entity_graph_never_allows_by_accident() {
    let entities = r#"[
        { "uid": { "type": "Role", "id": "a" }, "attrs": {}, "parents": [ { "type": "Role", "id": "b" } ] },
        { "uid": { "type": "Role", "id": "b" }, "attrs": {}, "parents": [ { "type": "Role", "id": "a" } ] }
    ]"#;
    let result = authorize(
        &[policy("unrelated", r#"permit(principal == User::"alice", action, resource);"#)],
        r#"User::"bob""#,
        r#"Action::"view""#,
        r#"Photo::"x""#,
        "",
        entities,
    );
    assert_eq!(result.result, Decision::Deny);
    assert!(result.determining_policy_ids.is_empty());
    for e in &result.errors {
        assert!(matches!(e, AuthError::ValueConversion { tree: InputTree::Entities, .. }));
    }
}

#[test]
fn type_mismatch_skips_the_policy_and_is_recorded() {
    let result = authorize(
        &[policy("adds", r#"permit(principal, action, resource) when { context.n + 1 == 2 };"#)],
        r#"User::"Bob""#,
        r#"Action::"view""#,
        r#"Photo::"x""#,
        r#"{"n": "one"}"#,
        "",
    );
    assert_eq!(result.result, Decision::Deny);
    assert!(result.determining_policy_ids.is_empty());
    assert_eq!(result.errors.len(), 1);
    assert!(matches!(&result.errors[0], AuthError::Evaluation { policy_id, .. } if policy_id == "adds"));
}

#[test]
fn booleans_and_integers_are_never_equal() {
    let result = authorize(
        &[policy("flag", r#"permit(principal, action, resource) when { context.flag == 1 };"#)],
        r#"User::"Bob""#,
        r#"Action::"view""#,
        r#"Photo::"x""#,
        r#"{"flag": true}"#,
        "",
    );
    assert_eq!(result.result, Decision::Deny);
    assert!(result.errors.is_empty());
}

#[test]
fn membership_in_a_set_of_targets() {
    let policies = [policy(
        "edit",
        r#"permit(principal, action in [Action::"update", Action::"delete"], resource);"#,
    )];
    let yes = authorize(&policies, r#"User::"Bob""#, r#"Action::"delete""#, r#"Photo::"x""#, "", "");
    assert_eq!(yes.result, Decision::Allow);
    let no = authorize(&policies, r#"User::"Bob""#, r#"Action::"view""#, r#"Photo::"x""#, "", "");
    assert_eq!(no.result, Decision::Deny);
    assert!(no.errors.is_empty());
}

#[test]
fn set_and_record_values_in_context() {
    let policies = [policy(
        "tagged",
        r#"permit(principal, action, resource) when { context.tags.contains("public") && context.owner.name == "Bob" };"#,
    )];
    let yes = authorize(
        &policies,
        r#"User::"Bob""#,
        r#"Action::"view""#,
        r#"Photo::"x""#,
        r#"{"tags": ["public", "new"], "owner": {"name": "Bob"}}"#,
        "",
    );
    assert_eq!(yes.result, Decision::Allow);
    let no = authorize(
        &policies,
        r#"User::"Bob""#,
        r#"Action::"view""#,
        r#"Photo::"x""#,
        r#"{"tags": ["private"], "owner": {"name": "Bob"}}"#,
        "",
    );
    assert_eq!(no.result, Decision::Deny);
    assert!(no.errors.is_empty());
}

#[test]
fn parties_reach_the_engine_in_their_places() {
    let policies = [policy(
        "placed",
        r#"permit(principal == Thing::"a", action == Action::"b", resource == Thing::"c");"#,
    )];
    let placed = authorize(&policies, r#"Thing::"a""#, r#"Action::"b""#, r#"Thing::"c""#, "", "");
    assert_eq!(placed.result, Decision::Allow);
    assert_eq!(ids(&placed), vec!["placed"]);
    for (p, a, r) in [
        (r#"Thing::"c""#, r#"Action::"b""#, r#"Thing::"a""#),
        (r#"Action::"b""#, r#"Thing::"a""#, r#"Thing::"c""#),
        (r#"Thing::"a""#, r#"Thing::"c""#, r#"Action::"b""#),
        (r#"Thing::"c""#, r#"Thing::"a""#, r#"Action::"b""#),
    ] {
        let exchanged = authorize(&policies, p, a, r, "", "");
        assert_eq!(exchanged.result, Decision::Deny);
        assert!(exchanged.determining_policy_ids.is_empty());
        assert!(exchanged.errors.is_empty());
    }
}

#[test]
fn each_policy_is_judged_by_its_own_text() {
    let policies = [
        policy("for-ann", r#"permit(principal == User::"ann", action, resource);"#),
        policy("for-bob", r#"permit(principal == User::"bob", action, resource);"#),
        policy("for-cid", r#"permit(principal == User::"cid", action, resource);"#),
    ];
    for (who, expected) in [("ann", "for-ann"), ("bob", "for-bob"), ("cid", "for-cid")] {
        let principal = format!("User::\"{}\"", who);
        let result = authorize(&policies, &principal, r#"Action::"view""#, r#"File::"f""#, "", "");
        assert_eq!(result.result, Decision::Allow);
        assert_eq!(ids(&result), vec![expected]);
    }
}

#[test]
fn refused_context_is_not_replaced_by_the_empty_one() {
    let policies = [policy("open", r#"permit(principal, action, resource);"#)];
    let result = authorize(&policies, r#"User::"ann""#, r#"Action::"view""#, r#"File::"f""#, r#"{"n": 1.5}"#, "");
    assert_eq!(result.result, Decision::Deny);
    assert!(result.determining_policy_ids.is_empty());
    assert_eq!(result.errors.len(), 1);
    assert!(matches!(&result.errors[0], AuthError::ValueConversion { tree: InputTree::Context, .. }));
}

#[test]
fn permit_whose_unless_clause_errs_is_skipped() {
    let policies = [policy(
        "lenient",
        r#"permit(principal, action, resource) unless { context.absent == 1 };"#,
    )];
    let result = authorize(&policies, r#"User::"ann""#, r#"Action::"view""#, r#"File::"f""#, "", "");
    assert_eq!(result.result, Decision::Deny);
    assert!(result.determining_policy_ids.is_empty());
    assert!(result.shadowed_policy_ids.is_empty());
    assert_eq!(result.errors.len(), 1);
    assert!(matches!(&result.errors[0], AuthError::Evaluation { policy_id, .. } if policy_id == "lenient"));
}

#[test]
fn forbid_whose_unless_clause_errs_is_skipped() {
    let policies = [
        policy("open", r#"permit(principal, action, resource);"#),
        policy("guard", r#"forbid(principal, action, resource) unless { context.absent == 1 };"#),
    ];
    let result = authorize(&policies, r#"User::"ann""#, r#"Action::"view""#, r#"File::"f""#, "", "");
    assert_eq!(result.result, Decision::Allow);
    assert_eq!(ids(&result), vec!["open"]);
    assert!(result.shadowed_policy_ids.is_empty());
    assert_eq!(result.errors.len(), 1);
    assert!(matches!(&result.errors[0], AuthError::Evaluation { policy_id, .. } if policy_id == "guard"));
}

#[test]
fn forbid_whose_when_clause_errs_is_skipped() {
    let policies = [
        policy("guard", r#"forbid(principal, action, resource) when { context.absent == 1 };"#),
        policy("open", r#"permit(principal, action, resource);"#),
    ];
    let result = authorize(&policies, r#"User::"ann""#, r#"Action::"view""#, r#"File::"f""#, "", "");
    assert_eq!(result.result, Decision::Allow);
    assert_eq!(ids(&result), vec!["open"]);
    assert_eq!(result.errors.len(), 1);
    assert!(matches!(&result.errors[0], AuthError::Evaluation { policy_id, .. } if policy_id == "guard"));
}

#[test]
fn entity_attributes_reach_the_engine() {
    let policies = [policy(
        "named",
        r#"permit(principal, action, resource) when { principal.name == "Ann" && resource.owner == principal };"#,
    )];
    let with = r#"[
        { "uid": { "type": "User", "id": "ann" }, "attrs": { "name": "Ann" }, "parents": [] },
        { "uid": { "type": "File", "id": "f" }, "attrs": { "owner": { "__entity": { "type": "User", "id": "ann" } } }, "parents": [] }
    ]"#;
    let without = r#"[
        { "uid": { "type": "User", "id": "ann" }, "attrs": {}, "parents": [] },
        { "uid": { "type": "File", "id": "f" }, "attrs": {}, "parents": [] }
    ]"#;
    let yes = authorize(&policies, r#"User::"ann""#, r#"Action::"view""#, r#"File::"f""#, "", with);
    assert_eq!(yes.result, Decision::Allow);
    let no = authorize(&policies, r#"User::"ann""#, r#"Action::"view""#, r#"File::"f""#, "", without);
    assert_eq!(no.result, Decision::Deny);
    assert_eq!(no.errors.len(), 1);
}
