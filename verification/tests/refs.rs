//! References to projects and agents, and the two small collections keyed by id.

use attacca::app::{resolve_ref, RefChoice};
use attacca::refs::{looks_like_uuid, IdMap, IdSet};

const ID: &str = "3f2504e0-4f89-11d3-9a0c-0305e82c3301";

fn known() -> Vec<(String, String)> {
    vec![("3f2504e0-4f89-11d3-9a0c-0305e82c3301".to_string(), "Rollout".to_string())]
}

#[test]
fn an_unset_reference_falls_through_to_the_default() {
    assert_eq!(resolve_ref("", &known()), RefChoice::Unset);
    assert_eq!(resolve_ref("   ", &known()), RefChoice::Unset);
}

#[test]
fn a_name_resolves_case_insensitively_to_its_id() {
    assert_eq!(
        resolve_ref("rollout", &known()),
        RefChoice::Resolved("3f2504e0-4f89-11d3-9a0c-0305e82c3301".into())
    );
}

/// The list is filled asynchronously on connect, so a UUID must resolve before it arrives —
/// otherwise the first session of a run silently lands somewhere else.
#[test]
fn a_uuid_resolves_without_the_list() {
    assert_eq!(
        resolve_ref("3f2504e0-4f89-11d3-9a0c-0305e82c3301", &[]),
        RefChoice::Resolved("3f2504e0-4f89-11d3-9a0c-0305e82c3301".into())
    );
}

#[test]
fn a_reference_matching_nothing_is_reported_rather_than_substituted() {
    assert_eq!(resolve_ref("typo", &known()), RefChoice::Unresolved("typo".into()));
}

#[test]
fn looks_like_uuid_accepts_only_the_canonical_form() {
    assert!(looks_like_uuid("3f2504e0-4f89-11d3-9a0c-0305e82c3301"));
    assert!(!looks_like_uuid("3f2504e04f8911d39a0c0305e82c3301"));
    assert!(!looks_like_uuid("3f2504e0-4f89-11d3-9a0c-0305e82c3301-extra"));
    assert!(!looks_like_uuid("zzzzzzzz-4f89-11d3-9a0c-0305e82c3301"));
    assert!(!looks_like_uuid("Rollout"));
}

#[test]
fn an_id_is_matched_before_any_name() {
    let list = vec![
        ("a".to_string(), "b".to_string()),
        ("b".to_string(), "other".to_string()),
    ];
    assert_eq!(resolve_ref("b", &list), RefChoice::Resolved("b".into()));
    assert_eq!(resolve_ref("  B ", &list), RefChoice::Resolved("a".into()));
}

#[test]
fn a_map_keeps_one_name_per_id() {
    let mut m = IdMap::new();
    m.insert(ID.to_string(), "Rollout".to_string());
    m.insert("p2".to_string(), "Other".to_string());
    m.insert(ID.to_string(), "Renamed".to_string());
    assert_eq!(m.get(ID).map(|s| s.as_str()), Some("Renamed"));
    assert_eq!(m.get("p2").map(|s| s.as_str()), Some("Other"));
    assert_eq!(m.get("p3"), None);
    assert_eq!(m.pairs().len(), 2);
    m.clear();
    assert_eq!(m.get(ID), None);
}

#[test]
fn a_set_holds_an_id_until_it_is_removed() {
    let mut s = IdSet::new();
    assert!(!s.contains("p1"));
    s.insert("p1".to_string());
    s.insert("p1".to_string());
    assert!(s.contains("p1"));
    s.remove("p1");
    assert!(!s.contains("p1"));
}
