use gix_fetch::matcher::{match_specs, TagPolicy};
use gix_fetch::plan::{plan, Change, LocalRef, Mode};
use gix_fetch::refspec::{Mapping, RefSpec, RemoteRef, Source, SpecIndex, Target};

fn remote_ref(name: &[u8], id: u64) -> RemoteRef {
    RemoteRef { name: name.to_vec(), target: Target::Id(id), peeled: None }
}

fn fetch_spec(src: &[u8], dst: &[u8], force: bool) -> RefSpec {
    RefSpec { source: src.to_vec(), destination: Some(dst.to_vec()), force }
}

fn local(name: &[u8], id: u64) -> LocalRef {
    LocalRef { name: name.to_vec(), target: Target::Id(id) }
}

#[test]
fn a_new_ref_becomes_an_unguarded_update() {
    let adv = vec![remote_ref(b"refs/heads/main", 1001)];
    let specs = vec![fetch_spec(b"refs/heads/main", b"refs/heads/main", false)];
    let out = match_specs(&adv, &specs, TagPolicy::Skip).unwrap();
    let r = plan(&adv, &specs, &out.extra_refspecs, &out.mappings, &vec![], &vec![], &None);
    assert_eq!(r.edits.len(), 1);
    assert_eq!(r.edits[0].ref_name, b"refs/heads/main".to_vec());
    match &r.edits[0].change {
        Change::Update { new_target, expected_old, forced } => {
            assert_eq!(*new_target, Target::Id(1001));
            assert_eq!(*expected_old, None);
            assert!(!*forced);
        },
        Change::Delete => panic!("expected an update"),
    }
    assert_eq!(r.updates.len(), 1);
    assert_eq!(r.updates[0].mapping_index, 0);
    assert_eq!(r.updates[0].mode, Mode::ExplicitInRemote);
}

#[test]
fn an_unchanged_ref_needs_no_edit() {
    let adv = vec![remote_ref(b"refs/heads/main", 1001)];
    let specs = vec![fetch_spec(b"refs/heads/main", b"refs/heads/main", false)];
    let locals = vec![local(b"refs/heads/main", 1001)];
    let out = match_specs(&adv, &specs, TagPolicy::Skip).unwrap();
    let r = plan(&adv, &specs, &out.extra_refspecs, &out.mappings, &locals, &vec![], &None);
    assert!(r.edits.is_empty());
    assert_eq!(r.updates[0].mode, Mode::NoChangeNeeded);
}

#[test]
fn a_non_fast_forward_move_is_rejected_not_planned() {
    let adv = vec![remote_ref(b"refs/heads/main", 5)];
    let specs = vec![fetch_spec(b"refs/heads/main", b"refs/heads/main", false)];
    let locals = vec![local(b"refs/heads/main", 9)];
    let out = match_specs(&adv, &specs, TagPolicy::Skip).unwrap();
    let r = plan(&adv, &specs, &out.extra_refspecs, &out.mappings, &locals, &vec![], &None);
    assert!(r.edits.is_empty(), "a rejected mapping must not produce an edit");
    assert_eq!(r.updates[0].mode, Mode::RejectedNonFastForward);
}

#[test]
fn a_fast_forward_move_is_planned_with_a_guard() {
    let adv = vec![remote_ref(b"refs/heads/main", 5)];
    let specs = vec![fetch_spec(b"refs/heads/main", b"refs/heads/main", false)];
    let locals = vec![local(b"refs/heads/main", 9)];
    let ancestry = vec![(9, 5)];
    let out = match_specs(&adv, &specs, TagPolicy::Skip).unwrap();
    let r = plan(&adv, &specs, &out.extra_refspecs, &out.mappings, &locals, &ancestry, &None);
    assert_eq!(r.edits.len(), 1);
    match &r.edits[0].change {
        Change::Update { new_target, expected_old, forced } => {
            assert_eq!(*new_target, Target::Id(5));
            assert_eq!(*expected_old, Some(Target::Id(9)));
            assert!(!*forced);
        },
        Change::Delete => panic!("expected an update"),
    }
}

#[test]
fn a_forced_spec_overrides_the_fast_forward_check() {
    let adv = vec![remote_ref(b"refs/heads/main", 5)];
    let specs = vec![fetch_spec(b"refs/heads/main", b"refs/heads/main", true)];
    let locals = vec![local(b"refs/heads/main", 9)];
    let out = match_specs(&adv, &specs, TagPolicy::Skip).unwrap();
    let r = plan(&adv, &specs, &out.extra_refspecs, &out.mappings, &locals, &vec![], &None);
    assert_eq!(r.edits.len(), 1);
    match &r.edits[0].change {
        Change::Update { forced, .. } => assert!(*forced),
        Change::Delete => panic!("expected an update"),
    }
    assert_eq!(r.updates[0].mode, Mode::ExplicitInRemote);
}

#[test]
fn the_unborn_head_branch_is_written_forced() {
    let adv = vec![remote_ref(b"refs/heads/main", 1001)];
    let specs = vec![fetch_spec(b"refs/heads/main", b"refs/heads/main", false)];
    let unborn = Some(b"refs/heads/main".to_vec());
    let out = match_specs(&adv, &specs, TagPolicy::Skip).unwrap();
    let r = plan(&adv, &specs, &out.extra_refspecs, &out.mappings, &vec![], &vec![], &unborn);
    match &r.edits[0].change {
        Change::Update { forced, .. } => assert!(*forced),
        Change::Delete => panic!("expected an update"),
    }
}

#[test]
fn later_explicit_specs_win_duplicate_destinations() {
    let adv = vec![remote_ref(b"refs/heads/a", 1), remote_ref(b"refs/heads/b", 2)];
    let specs = vec![
        fetch_spec(b"refs/heads/a", b"refs/heads/x", true),
        fetch_spec(b"refs/heads/b", b"refs/heads/x", true),
    ];
    let out = match_specs(&adv, &specs, TagPolicy::Skip).unwrap();
    let r = plan(&adv, &specs, &out.extra_refspecs, &out.mappings, &vec![], &vec![], &None);
    assert_eq!(r.edits.len(), 1);
    match &r.edits[0].change {
        Change::Update { new_target, .. } => assert_eq!(*new_target, Target::Id(2)),
        Change::Delete => panic!("expected an update"),
    }
}

#[test]
fn explicit_edits_beat_implicit_ones_for_the_same_destination() {
    let adv = vec![remote_ref(b"refs/tags/v1", 7)];
    let specs = vec![fetch_spec(b"refs/tags/v1", b"refs/tags/v1", true)];
    let out = match_specs(&adv, &specs, TagPolicy::Follow).unwrap();
    assert_eq!(out.mappings.len(), 2, "explicit and implicit matches are independent");
    let r = plan(&adv, &specs, &out.extra_refspecs, &out.mappings, &vec![], &vec![], &None);
    assert_eq!(r.edits.len(), 1);
    assert_eq!(r.updates[0].mode, Mode::ExplicitInRemote);
    assert_eq!(r.updates[1].mode, Mode::ImplicitTag);
}

#[test]
fn a_symbolic_remote_target_points_at_the_local_tracking_ref() {
    let adv = vec![
        RemoteRef {
            name: b"HEAD".to_vec(),
            target: Target::Symbolic(b"refs/heads/main".to_vec()),
            peeled: None,
        },
        remote_ref(b"refs/heads/main", 1001),
    ];
    let specs = vec![
        fetch_spec(b"HEAD", b"refs/remotes/origin/HEAD", true),
        fetch_spec(b"refs/heads/*", b"refs/remotes/origin/*", true),
    ];
    let out = match_specs(&adv, &specs, TagPolicy::Skip).unwrap();
    let r = plan(&adv, &specs, &out.extra_refspecs, &out.mappings, &vec![], &vec![], &None);
    let head_edit = r
        .edits
        .iter()
        .find(|e| e.ref_name == b"refs/remotes/origin/HEAD".to_vec())
        .expect("an edit for the remote HEAD");
    match &head_edit.change {
        Change::Update { new_target, .. } => {
            assert_eq!(
                *new_target,
                Target::Symbolic(b"refs/remotes/origin/main".to_vec()),
                "it points to the local tracking branch of what the remote points to"
            );
        },
        Change::Delete => panic!("expected an update"),
    }
}

#[test]
fn a_locally_known_tag_the_remote_omitted_is_still_planned() {
    // The remote's advertisement of this round omitted the tag, but its peeled
    // id is known locally from an earlier fetch: the mapping carries the id
    // itself instead of an advertisement index.
    let adv: Vec<RemoteRef> = vec![];
    let extra = vec![fetch_spec(b"refs/tags/*", b"refs/tags/*", false)];
    let mappings = vec![Mapping {
        source: Source::Detached(777),
        local: Some(b"refs/tags/old".to_vec()),
        spec_index: SpecIndex::Implicit(0),
    }];
    let r = plan(&adv, &vec![], &extra, &mappings, &vec![], &vec![], &None);
    assert_eq!(r.updates[0].mode, Mode::ImplicitTagNotSentByRemote);
    assert_eq!(r.edits.len(), 1);
    match &r.edits[0].change {
        Change::Update { new_target, .. } => assert_eq!(*new_target, Target::Id(777)),
        Change::Delete => panic!("expected an update"),
    }
}
