use gix_fetch::matcher::{match_specs, MatchError, TagPolicy};
use gix_fetch::refspec::{Mapping, RefSpec, RemoteRef, Source, SpecIndex, Target};

fn remote_ref(name: &[u8], id: u64) -> RemoteRef {
    RemoteRef { name: name.to_vec(), target: Target::Id(id), peeled: None }
}

fn fetch_spec(src: &[u8], dst: &[u8], force: bool) -> RefSpec {
    RefSpec { source: src.to_vec(), destination: Some(dst.to_vec()), force }
}

#[test]
fn exact_spec_maps_one_advertised_ref() {
    let adv = vec![remote_ref(b"refs/heads/main", 1), remote_ref(b"refs/heads/dev", 2)];
    let specs = vec![fetch_spec(b"refs/heads/main", b"refs/heads/main", false)];
    let out = match_specs(&adv, &specs, TagPolicy::Skip).unwrap();
    assert_eq!(out.mappings.len(), 1);
    assert_eq!(out.mappings[0].source, Source::Advertised(0));
    assert_eq!(out.mappings[0].local, Some(b"refs/heads/main".to_vec()));
    assert_eq!(out.mappings[0].spec_index, SpecIndex::ExplicitInRemote(0));
    assert!(out.extra_refspecs.is_empty());
}

#[test]
fn glob_spec_substitutes_the_matched_run() {
    let adv = vec![
        remote_ref(b"refs/heads/main", 1),
        remote_ref(b"refs/heads/feature/x", 2),
        remote_ref(b"refs/tags/v1", 3),
    ];
    let specs = vec![fetch_spec(b"refs/heads/*", b"refs/remotes/origin/*", false)];
    let out = match_specs(&adv, &specs, TagPolicy::Skip).unwrap();
    assert_eq!(out.mappings.len(), 2);
    assert_eq!(out.mappings[0].local, Some(b"refs/remotes/origin/main".to_vec()));
    assert_eq!(out.mappings[1].local, Some(b"refs/remotes/origin/feature/x".to_vec()));
}

#[test]
fn matches_preserve_advertisement_order_within_each_spec() {
    let adv = vec![
        remote_ref(b"refs/heads/b", 2),
        remote_ref(b"refs/heads/a", 1),
        remote_ref(b"refs/heads/c", 3),
    ];
    let specs = vec![fetch_spec(b"refs/heads/*", b"refs/heads/*", true)];
    let out = match_specs(&adv, &specs, TagPolicy::Skip).unwrap();
    let locals: Vec<_> = out.mappings.iter().map(|m| m.local.clone().unwrap()).collect();
    assert_eq!(locals, vec![b"refs/heads/b".to_vec(), b"refs/heads/a".to_vec(), b"refs/heads/c".to_vec()]);
}

#[test]
fn every_mapping_references_an_existing_rule() {
    let adv = vec![
        remote_ref(b"refs/heads/main", 1),
        remote_ref(b"refs/tags/v1", 2),
        remote_ref(b"refs/tags/v2", 3),
    ];
    let specs = vec![
        fetch_spec(b"refs/heads/*", b"refs/remotes/origin/*", false),
        fetch_spec(b"refs/heads/main", b"refs/heads/main", true),
    ];
    let out = match_specs(&adv, &specs, TagPolicy::Follow).unwrap();
    assert!(!out.mappings.is_empty());
    for m in &out.mappings {
        match m.spec_index {
            SpecIndex::ExplicitInRemote(si) => assert!(si < specs.len()),
            SpecIndex::Implicit(ti) => assert!(ti < out.extra_refspecs.len()),
        }
    }
}

#[test]
fn tag_following_synthesizes_one_extra_spec() {
    let adv = vec![remote_ref(b"refs/heads/main", 1), remote_ref(b"refs/tags/v1", 2)];
    let specs = vec![fetch_spec(b"refs/heads/main", b"refs/heads/main", true)];
    let out = match_specs(&adv, &specs, TagPolicy::Follow).unwrap();
    assert_eq!(out.extra_refspecs.len(), 1);
    assert_eq!(out.extra_refspecs[0].source, b"refs/tags/*".to_vec());
    assert_eq!(out.extra_refspecs[0].destination, Some(b"refs/tags/*".to_vec()));
    assert!(!out.extra_refspecs[0].force);
    assert_eq!(out.mappings.len(), 2);
    assert_eq!(out.mappings[1].spec_index, SpecIndex::Implicit(0));
    assert_eq!(out.mappings[1].local, Some(b"refs/tags/v1".to_vec()));
}

#[test]
fn matching_twice_yields_identical_mappings() {
    let adv = vec![
        remote_ref(b"refs/heads/main", 1),
        remote_ref(b"refs/heads/dev", 2),
        remote_ref(b"refs/tags/v1", 3),
    ];
    let specs = vec![fetch_spec(b"refs/heads/*", b"refs/remotes/origin/*", false)];
    let first = match_specs(&adv, &specs, TagPolicy::Follow).unwrap();
    let second = match_specs(&adv, &specs, TagPolicy::Follow).unwrap();
    let a: Vec<Mapping> = first.mappings;
    let b: Vec<Mapping> = second.mappings;
    assert_eq!(a, b);
    assert_eq!(first.extra_refspecs, second.extra_refspecs);
}

#[test]
fn a_pattern_with_two_wildcards_is_rejected() {
    let adv = vec![remote_ref(b"refs/heads/main", 1)];
    let specs = vec![fetch_spec(b"refs/*/mirror/*", b"refs/heads/*", false)];
    match match_specs(&adv, &specs, TagPolicy::Skip) {
        Err(MatchError::InvalidRefspecPattern { spec_index }) => assert_eq!(spec_index, 0),
        other => panic!("expected an invalid-pattern error, got {:?}", other.is_ok()),
    }
}

#[test]
fn wildcard_sides_must_agree() {
    let adv = vec![remote_ref(b"refs/heads/main", 1)];
    let specs = vec![fetch_spec(b"refs/heads/*", b"refs/heads/main", false)];
    assert!(matches!(
        match_specs(&adv, &specs, TagPolicy::Skip),
        Err(MatchError::InvalidRefspecPattern { spec_index: 0 })
    ));
}

#[test]
fn contested_destination_of_non_force_specs_is_ambiguous() {
    let adv = vec![remote_ref(b"refs/heads/a", 1), remote_ref(b"refs/heads/b", 2)];
    let specs = vec![
        fetch_spec(b"refs/heads/a", b"refs/heads/x", false),
        fetch_spec(b"refs/heads/b", b"refs/heads/x", false),
    ];
    match match_specs(&adv, &specs, TagPolicy::Skip) {
        Err(MatchError::AmbiguousDestination { ref_name }) => {
            assert_eq!(ref_name, b"refs/heads/x".to_vec());
        },
        _ => panic!("expected an ambiguous-destination error"),
    }
}

#[test]
fn force_or_equal_targets_resolve_the_contest() {
    let adv = vec![remote_ref(b"refs/heads/a", 1), remote_ref(b"refs/heads/b", 1)];
    let same_target = vec![
        fetch_spec(b"refs/heads/a", b"refs/heads/x", false),
        fetch_spec(b"refs/heads/b", b"refs/heads/x", false),
    ];
    assert!(match_specs(&adv, &same_target, TagPolicy::Skip).is_ok());
    let adv2 = vec![remote_ref(b"refs/heads/a", 1), remote_ref(b"refs/heads/b", 2)];
    let forced = vec![
        fetch_spec(b"refs/heads/a", b"refs/heads/x", true),
        fetch_spec(b"refs/heads/b", b"refs/heads/x", false),
    ];
    assert!(match_specs(&adv2, &forced, TagPolicy::Skip).is_ok());
}

#[test]
fn a_spec_without_destination_maps_without_local() {
    let adv = vec![remote_ref(b"refs/heads/main", 1)];
    let specs = vec![RefSpec { source: b"refs/heads/main".to_vec(), destination: None, force: false }];
    let out = match_specs(&adv, &specs, TagPolicy::Skip).unwrap();
    assert_eq!(out.mappings.len(), 1);
    assert_eq!(out.mappings[0].local, None);
}
