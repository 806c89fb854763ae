use gix_fetch::errors::FetchError;
use gix_fetch::apply::ApplyError;
use gix_fetch::matcher::{MatchError, TagPolicy};
use gix_fetch::plan::Mode;
use gix_fetch::refspec::{RefSpec, RemoteRef, Target};
use gix_fetch::session::run_round;
use gix_fetch::shallow::ShallowError;

fn remote_ref(name: &[u8], id: u64) -> RemoteRef {
    RemoteRef { name: name.to_vec(), target: Target::Id(id), peeled: None }
}

fn fetch_spec(src: &[u8], dst: &[u8], force: bool) -> RefSpec {
    RefSpec { source: src.to_vec(), destination: Some(dst.to_vec()), force }
}

#[test]
fn a_round_matches_and_plans_in_one_pass() {
    let adv = vec![remote_ref(b"refs/heads/main", 1), remote_ref(b"refs/tags/v1", 2)];
    let specs = vec![fetch_spec(b"refs/heads/*", b"refs/remotes/origin/*", false)];
    let (out, update_refs) =
        run_round(&adv, &specs, TagPolicy::Follow, &vec![], &vec![], &None).unwrap();
    assert_eq!(out.mappings.len(), 2);
    assert_eq!(update_refs.updates.len(), 2);
    assert_eq!(update_refs.edits.len(), 2);
    assert_eq!(update_refs.updates[0].mode, Mode::ExplicitInRemote);
    assert_eq!(update_refs.updates[1].mode, Mode::ImplicitTag);
}

#[test]
fn a_round_fails_as_matching_fails() {
    let adv = vec![remote_ref(b"refs/heads/main", 1)];
    let specs = vec![fetch_spec(b"refs/*/x/*", b"refs/heads/*", false)];
    assert!(matches!(
        run_round(&adv, &specs, TagPolicy::Skip, &vec![], &vec![], &None),
        Err(MatchError::InvalidRefspecPattern { spec_index: 0 })
    ));
}

#[test]
fn component_failures_lift_into_the_session_taxonomy() {
    assert_eq!(
        FetchError::from_match(MatchError::InvalidRefspecPattern { spec_index: 3 }),
        FetchError::InvalidRefspecPattern { spec_index: 3 }
    );
    assert_eq!(
        FetchError::from_match(MatchError::AmbiguousDestination { ref_name: b"refs/heads/x".to_vec() }),
        FetchError::AmbiguousDestination { ref_name: b"refs/heads/x".to_vec() }
    );
    assert_eq!(
        FetchError::from_shallow(ShallowError::RejectShallowRemote),
        FetchError::RejectShallowRemote
    );
    assert_eq!(
        FetchError::from_apply(ApplyError::RefConflict { ref_name: b"refs/heads/main".to_vec() }),
        FetchError::RefConflict { ref_name: b"refs/heads/main".to_vec() }
    );
}
