use gix_fetch::shallow::{
    check_shallow_policy, commands_for_request, contains_u64, negotiate_boundary,
    negotiate_outcome, DeepenCommand, ShallowBoundary, ShallowError, ShallowOutcome,
    ShallowRequest,
};

#[test]
fn depth_then_undo_round_trip_leaves_an_empty_boundary() {
    let empty = ShallowBoundary::empty_boundary();
    let after_depth = negotiate_boundary(
        &empty,
        &Some(ShallowRequest::DepthAtRemote(2)),
        &vec![10, 11],
    );
    assert_eq!(after_depth.commits, vec![10, 11]);
    let after_undo = negotiate_boundary(&after_depth, &Some(ShallowRequest::Undo), &vec![99]);
    assert!(after_undo.commits.is_empty());
}

#[test]
fn depth_then_deepen_adopts_the_disjoint_reply() {
    let empty = ShallowBoundary::empty_boundary();
    let first = negotiate_boundary(&empty, &Some(ShallowRequest::DepthAtRemote(2)), &vec![10, 11]);
    let second = negotiate_boundary(&first, &Some(ShallowRequest::Deepen(1)), &vec![20, 21]);
    assert_eq!(second.commits, vec![20, 21]);
    for c in &second.commits {
        assert!(!contains_u64(&first.commits, *c), "the deepened boundary must be disjoint");
    }
}

#[test]
fn since_before_the_first_commit_unshallows() {
    let prior = ShallowBoundary { commits: vec![10, 11] };
    let after = negotiate_boundary(&prior, &Some(ShallowRequest::Since { cutoff: 1 }), &vec![]);
    assert!(after.commits.is_empty(), "an empty shallow reply means a complete repository");
}

#[test]
fn no_request_keeps_the_prior_boundary() {
    let prior = ShallowBoundary { commits: vec![5, 6] };
    let after = negotiate_boundary(&prior, &None, &vec![7]);
    assert_eq!(after.commits, vec![5, 6]);
}

#[test]
fn the_reply_is_deduplicated_first_occurrence_first() {
    let empty = ShallowBoundary::empty_boundary();
    let after = negotiate_boundary(&empty, &Some(ShallowRequest::Deepen(3)), &vec![7, 7, 8, 7]);
    assert_eq!(after.commits, vec![7, 8]);
}

#[test]
fn each_request_emits_its_wire_commands() {
    assert_eq!(
        commands_for_request(&ShallowRequest::DepthAtRemote(2)),
        vec![DeepenCommand::Depth(2)]
    );
    assert_eq!(commands_for_request(&ShallowRequest::Deepen(1)), vec![DeepenCommand::Relative(1)]);
    assert_eq!(
        commands_for_request(&ShallowRequest::Since { cutoff: 1112354053 }),
        vec![DeepenCommand::SinceDate(1112354053)]
    );
    assert_eq!(commands_for_request(&ShallowRequest::Undo), vec![DeepenCommand::Unshallow]);
}

#[test]
fn exclusions_come_in_order_with_the_optional_cutoff_last() {
    let req = ShallowRequest::Exclude {
        remote_refs: vec![b"refs/heads/a".to_vec(), b"refs/heads/b".to_vec()],
        since_cutoff: Some(99),
    };
    assert_eq!(
        commands_for_request(&req),
        vec![
            DeepenCommand::Not(b"refs/heads/a".to_vec()),
            DeepenCommand::Not(b"refs/heads/b".to_vec()),
            DeepenCommand::SinceDate(99),
        ]
    );
    let bare = ShallowRequest::Exclude {
        remote_refs: vec![b"refs/heads/a".to_vec()],
        since_cutoff: None,
    };
    assert_eq!(commands_for_request(&bare), vec![DeepenCommand::Not(b"refs/heads/a".to_vec())]);
}

#[test]
fn fetching_from_a_shallow_remote_can_be_rejected_before_any_round_trip() {
    let req = Some(ShallowRequest::DepthAtRemote(2));
    assert_eq!(
        check_shallow_policy(true, true, &req),
        Err(ShallowError::RejectShallowRemote)
    );
    assert_eq!(check_shallow_policy(true, false, &req), Ok(()));
    assert_eq!(check_shallow_policy(false, true, &req), Ok(()));
    assert_eq!(check_shallow_policy(true, true, &None), Ok(()));
}

#[test]
fn no_request_terminates_unchanged_and_a_request_in_a_new_boundary() {
    let prior = ShallowBoundary { commits: vec![5] };
    assert!(matches!(negotiate_outcome(&prior, &None, &vec![9]), ShallowOutcome::Unchanged));
    match negotiate_outcome(&prior, &Some(ShallowRequest::Deepen(1)), &vec![9]) {
        ShallowOutcome::NewBoundary(b) => assert_eq!(b.commits, vec![9]),
        ShallowOutcome::Unchanged => panic!("a requested transition must produce a boundary"),
    }
}
