use cedar_sharp::limits::MAX_ENTITY_BYTES;
use cedar_sharp::request::EntityStore;
use cedar_sharp::{authorize, AuthError, CedarPolicy, Decision, InputTree};

const CHAIN: &str = r#"[
    { "uid": { "type": "User", "id": "Bob" }, "attrs": {}, "parents": [ { "type": "Team", "id": "jury" } ] },
    { "uid": { "type": "Team", "id": "jury" }, "attrs": {}, "parents": [ { "type": "Role", "id": "judges" } ] },
    { "uid": { "type": "Role", "id": "judges" }, "attrs": {}, "parents": [] },
    { "uid": { "type": "Role", "id": "guests" }, "attrs": {}, "parents": [] }
]"#;

const BROKEN_CHAIN: &str = r#"[
    { "uid": { "type": "User", "id": "Bob" }, "attrs": {}, "parents": [ { "type": "Team", "id": "jury" } ] },
    { "uid": { "type": "Team", "id": "jury" }, "attrs": {}, "parents": [] },
    { "uid": { "type": "Role", "id": "judges" }, "attrs": {}, "parents": [] }
]"#;

const BOB: &str = r#"User::"Bob""#;
const JURY: &str = r#"Team::"jury""#;
const JUDGES: &str = r#"Role::"judges""#;
const GUESTS: &str = r#"Role::"guests""#;

#[test]
fn entity_is_in_its_direct_parent() {
    let store = EntityStore::build(CHAIN).expect("well formed");
    assert_eq!(store.is_in(BOB, JURY), Some(true));
    assert_eq!(store.is_in(JURY, JUDGES), Some(true));
}

#[test]
fn entity_is_in_its_transitive_parent() {
    let store = EntityStore::build(CHAIN).expect("well formed");
    assert_eq!(store.is_in(BOB, JUDGES), Some(true));
}

#[test]
fn removing_the_edge_removes_membership() {
    let store = EntityStore::build(BROKEN_CHAIN).expect("well formed");
    assert_eq!(store.is_in(BOB, JURY), Some(true));
    assert_eq!(store.is_in(BOB, JUDGES), Some(false));
    assert_eq!(store.is_in(JURY, JUDGES), Some(false));
}

#[test]
fn membership_does_not_run_downwards_or_sideways() {
    let store = EntityStore::build(CHAIN).expect("well formed");
    assert_eq!(store.is_in(JUDGES, BOB), Some(false));
    assert_eq!(store.is_in(JURY, BOB), Some(false));
    assert_eq!(store.is_in(BOB, GUESTS), Some(false));
}

#[test]
fn every_entity_is_in_itself() {
    let store = EntityStore::build(CHAIN).expect("well formed");
    assert_eq!(store.is_in(BOB, BOB), Some(true));
    assert_eq!(store.is_in(JUDGES, JUDGES), Some(true));
    assert_eq!(store.is_in(r#"User::"stranger""#, r#"User::"stranger""#), Some(true));
    let empty = EntityStore::build("").expect("the empty store always builds");
    assert_eq!(empty.is_in(BOB, BOB), Some(true));
}

#[test]
fn unknown_entity_is_in_nothing_else() {
    let store = EntityStore::build(CHAIN).expect("well formed");
    assert_eq!(store.is_in(r#"User::"stranger""#, JUDGES), Some(false));
    assert_eq!(store.is_in(BOB, r#"Role::"unknown""#), Some(false));
}

#[test]
fn malformed_identifier_gets_no_answer() {
    let store = EntityStore::build(CHAIN).expect("well formed");
    assert_eq!(store.is_in("Bob", JUDGES), None);
    assert_eq!(store.is_in(BOB, "judges"), None);
    assert_eq!(store.is_in("", ""), None);
    assert_eq!(store.is_in("same", "same"), None);
}

#[test]
fn empty_document_stands_for_the_store_that_holds_nothing() {
    for document in ["", "[]"] {
        let store = EntityStore::build(document).expect("always builds");
        assert_eq!(store.is_in(BOB, JURY), Some(false));
        assert_eq!(store.is_in(JURY, JUDGES), Some(false));
        assert_eq!(store.is_in(JUDGES, JUDGES), Some(true));
    }
}

#[test]
fn stores_built_from_different_documents_answer_differently() {
    let chain = EntityStore::build(CHAIN).expect("well formed");
    let broken = EntityStore::build(BROKEN_CHAIN).expect("well formed");
    assert_eq!(chain.is_in(BOB, JUDGES), Some(true));
    assert_eq!(broken.is_in(BOB, JUDGES), Some(false));
}

fn record(id: usize, parent: Option<usize>) -> String {
    match parent {
        Some(parent) => format!(
            r#"{{"uid":{{"type":"G","id":"{}"}},"attrs":{{}},"parents":[{{"type":"G","id":"{}"}}]}}"#,
            id, parent
        ),
        None => format!(r#"{{"uid":{{"type":"G","id":"{}"}},"attrs":{{}},"parents":[]}}"#, id),
    }
}

/// The longest chain of parents, in the most compact writing, that fits the bound.
fn longest_chain() -> (String, usize) {
    let mut document = String::from("[");
    let mut length = 0;
    loop {
        let link = record(length, Some(length + 1));
        let last = record(length + 1, None);
        if document.len() + link.len() + 1 + last.len() + 1 > MAX_ENTITY_BYTES {
            break;
        }
        document.push_str(&link);
        document.push(',');
        length += 1;
    }
    document.push_str(&record(length, None));
    document.push(']');
    (document, length)
}

#[test]
fn longest_chain_that_fits_the_bound_is_built() {
    let (document, length) = longest_chain();
    assert!(document.len() <= MAX_ENTITY_BYTES);
    assert!(length > 400);
    let store = EntityStore::build(&document).expect("within the bound and well formed");
    let top = format!("G::\"{}\"", length);
    assert_eq!(store.is_in(r#"G::"0""#, &top), Some(true));
    assert_eq!(store.is_in(&top, r#"G::"0""#), Some(false));
    let policy = CedarPolicy {
        id: String::from("top"),
        policy: format!("permit(principal in {}, action, resource);", top),
    };
    let result = authorize(&[policy], r#"G::"0""#, r#"Action::"v""#, r#"File::"f""#, "", &document);
    assert_eq!(result.result, Decision::Allow);
}

#[test]
fn document_of_exactly_the_longest_length_is_built() {
    let mut document = String::from(CHAIN);
    while document.len() < MAX_ENTITY_BYTES {
        document.push(' ');
    }
    assert_eq!(document.len(), 32768);
    let store = EntityStore::build(&document).expect("within the bound and well formed");
    assert_eq!(store.is_in(BOB, JUDGES), Some(true));
}

#[test]
fn document_one_byte_too_long_is_refused() {
    let mut document = String::from(CHAIN);
    while document.len() < MAX_ENTITY_BYTES + 1 {
        document.push(' ');
    }
    match EntityStore::build(&document) {
        Err(AuthError::ValueConversion { tree, detail }) => {
            assert_eq!(tree, InputTree::Entities);
            assert_eq!(detail, "the document is too long");
        }
        other => panic!("unexpected outcome {:?}", other),
    }
    let policy = CedarPolicy {
        id: String::from("open"),
        policy: String::from("permit(principal, action, resource);"),
    };
    let result = authorize(&[policy], BOB, r#"Action::"v""#, r#"File::"f""#, "", &document);
    assert_eq!(result.result, Decision::Deny);
    assert_eq!(result.errors.len(), 1);
    assert_eq!(
        result.errors[0].message(),
        "entities cannot be converted: the document is too long"
    );
}

#[test]
fn chains_far_beyond_the_bound_are_refused_without_harm() {
    let mut document = String::from("[");
    for id in 0..100_000 {
        document.push_str(&record(id, Some(id + 1)));
        document.push(',');
    }
    document.push_str(&record(100_000, None));
    document.push(']');
    assert!(matches!(
        EntityStore::build(&document),
        Err(AuthError::ValueConversion { tree: InputTree::Entities, .. })
    ));
}

#[test]
fn members_of_a_cycle_get_no_store() {
    let cycle = r#"[
        { "uid": { "type": "Role", "id": "a" }, "attrs": {}, "parents": [ { "type": "Role", "id": "b" } ] },
        { "uid": { "type": "Role", "id": "b" }, "attrs": {}, "parents": [ { "type": "Role", "id": "a" } ] }
    ]"#;
    assert!(matches!(
        EntityStore::build(cycle),
        Err(AuthError::ValueConversion { tree: InputTree::Entities, .. })
    ));
    let own_parent = r#"[
        { "uid": { "type": "Role", "id": "a" }, "attrs": {}, "parents": [ { "type": "Role", "id": "a" } ] }
    ]"#;
    assert!(matches!(
        EntityStore::build(own_parent),
        Err(AuthError::ValueConversion { tree: InputTree::Entities, .. })
    ));
}

#[test]
fn two_distinct_entities_are_never_in_each_other() {
    let store = EntityStore::build(CHAIN).expect("well formed");
    for (a, b) in [(BOB, JURY), (BOB, JUDGES), (JURY, JUDGES), (BOB, GUESTS)] {
        let forth = store.is_in(a, b).expect("well formed");
        let back = store.is_in(b, a).expect("well formed");
        assert!(!(forth && back));
    }
}
