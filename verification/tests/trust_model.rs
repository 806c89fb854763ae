use gix_fetch::sec::{DefaultForLevel, Mapping, Permission, Trust};

#[test]
fn trust_follows_path_ownership() {
    assert_eq!(Trust::from_path_ownership(true), Trust::Full);
    assert_eq!(Trust::from_path_ownership(false), Trust::Reduced);
}

#[test]
fn trust_orders_reduced_below_full() {
    assert!(Trust::Reduced < Trust::Full);
}

#[test]
fn mapping_by_level_picks_the_matching_field() {
    let m = Mapping { full: 1u32, reduced: 2u32 };
    assert_eq!(*m.by_level(Trust::Full), 1);
    assert_eq!(*m.by_level(Trust::Reduced), 2);
}

#[test]
fn mapping_into_value_by_level_consumes() {
    let m = Mapping { full: "a", reduced: "b" };
    assert_eq!(m.into_value_by_level(Trust::Reduced), "b");
    let m = Mapping { full: "a", reduced: "b" };
    assert_eq!(m.into_value_by_level(Trust::Full), "a");
}

#[test]
fn mapping_default_uses_the_level_defaults() {
    let m: Mapping<Permission> = Default::default();
    assert_eq!(m.full, Permission::Allow);
    assert_eq!(m.reduced, Permission::Deny);
}

#[test]
fn default_for_level_denies_reduced_trust() {
    assert_eq!(Permission::default_for_level(Trust::Full), Permission::Allow);
    assert_eq!(Permission::default_for_level(Trust::Reduced), Permission::Deny);
}

#[test]
fn permission_check_allows_denies_forbids() {
    assert_eq!(Permission::Allow.check("resource").unwrap(), Some("resource"));
    assert_eq!(Permission::Deny.check("resource").unwrap(), None);
    let err = Permission::Forbid.check("resource").unwrap_err();
    assert_eq!(err.resource, "resource");
    assert_eq!(err.permission, Permission::Forbid);
}

#[test]
fn permission_text_matches_the_meaning() {
    assert_eq!(Permission::Allow.as_text(), "allowed");
    assert_eq!(Permission::Deny.as_text(), "denied");
    assert_eq!(Permission::Forbid.as_text(), "forbidden");
}
