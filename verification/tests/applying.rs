use gix_fetch::apply::{
    apply, reflog_message, seal_bundle, ApplyError, PackBundle, RefStoreState, SessionKind,
};
use gix_fetch::matcher::{match_specs, TagPolicy};
use gix_fetch::plan::{plan, LocalRef, Mode};
use gix_fetch::refspec::{RefSpec, RemoteRef, Target};
use gix_fetch::session::{build_outcome, SessionStatus};
use gix_fetch::shallow::ShallowBoundary;

fn remote_ref(name: &[u8], id: u64) -> RemoteRef {
    RemoteRef { name: name.to_vec(), target: Target::Id(id), peeled: None }
}

fn peeled_tag(name: &[u8], tag_id: u64, commit_id: u64) -> RemoteRef {
    RemoteRef { name: name.to_vec(), target: Target::Id(tag_id), peeled: Some(commit_id) }
}

fn fetch_spec(src: &[u8], dst: &[u8], force: bool) -> RefSpec {
    RefSpec { source: src.to_vec(), destination: Some(dst.to_vec()), force }
}

fn fresh_store() -> RefStoreState {
    RefStoreState { refs: vec![], reflog: vec![] }
}

fn sealed_bundle() -> PackBundle {
    let mut b = PackBundle { sealed: false, keep_marker: false };
    seal_bundle(&mut b);
    b
}

#[test]
fn reflog_lines_name_the_session_kind_and_source() {
    assert_eq!(
        reflog_message(SessionKind::InitialClone, &b"file://remote".to_vec()),
        b"clone: from file://remote".to_vec()
    );
    assert_eq!(
        reflog_message(SessionKind::Fetch, &b"origin".to_vec()),
        b"fetch: from origin".to_vec()
    );
}

#[test]
fn clone_scenario_writes_refs_tags_and_reflog() {
    // Advertised: main -> C1, tags/v1 -> T1 peeled to C0; one forced explicit
    // spec for main; tag following on.
    let adv = vec![remote_ref(b"refs/heads/main", 1001), peeled_tag(b"refs/tags/v1", 2001, 1000)];
    let specs = vec![fetch_spec(b"refs/heads/main", b"refs/heads/main", true)];
    let out = match_specs(&adv, &specs, TagPolicy::Follow).unwrap();
    assert_eq!(out.mappings.len(), 2);
    let r = plan(&adv, &specs, &out.extra_refspecs, &out.mappings, &vec![], &vec![], &None);
    assert_eq!(r.edits.len(), 2);
    assert_eq!(r.updates[0].mode, Mode::ExplicitInRemote);
    assert_eq!(r.updates[1].mode, Mode::ImplicitTag);

    let mut store = fresh_store();
    let mut shallow = ShallowBoundary::empty_boundary();
    let mut bundle = sealed_bundle();
    let result = apply(
        &mut store,
        &mut shallow,
        &mut bundle,
        &r.edits,
        &ShallowBoundary::empty_boundary(),
        SessionKind::InitialClone,
        &b"file://remote".to_vec(),
    );
    assert!(result.is_ok());
    assert_eq!(store.refs.len(), 2);
    assert_eq!(store.refs[0].name, b"refs/heads/main".to_vec());
    assert_eq!(store.refs[0].target, Target::Id(1001));
    assert_eq!(store.refs[1].name, b"refs/tags/v1".to_vec());
    assert_eq!(store.refs[1].target, Target::Id(2001));
    assert_eq!(store.reflog.len(), 2, "one reflog line per changed ref");
    for entry in &store.reflog {
        assert_eq!(entry.line, b"clone: from file://remote".to_vec());
    }
    assert!(!bundle.keep_marker, "keep files are not kept once refs are written");
    let outcome = build_outcome(out, vec![], r, b"pack".to_vec(), bundle.keep_marker, b"keep".to_vec());
    assert!(matches!(outcome.status, SessionStatus::Change { .. }));
}

#[test]
fn refetching_an_unchanged_advertisement_changes_nothing() {
    let adv = vec![remote_ref(b"refs/heads/main", 1001)];
    let specs = vec![fetch_spec(b"refs/heads/main", b"refs/heads/main", true)];
    let locals = vec![LocalRef { name: b"refs/heads/main".to_vec(), target: Target::Id(1001) }];
    let out = match_specs(&adv, &specs, TagPolicy::Skip).unwrap();
    let r = plan(&adv, &specs, &out.extra_refspecs, &out.mappings, &locals, &vec![], &None);
    assert!(r.edits.is_empty());
    assert_eq!(r.updates[0].mode, Mode::NoChangeNeeded);

    let mut store = RefStoreState { refs: locals, reflog: vec![] };
    let mut shallow = ShallowBoundary::empty_boundary();
    let mut bundle = sealed_bundle();
    let result = apply(
        &mut store,
        &mut shallow,
        &mut bundle,
        &r.edits,
        &ShallowBoundary::empty_boundary(),
        SessionKind::Fetch,
        &b"origin".to_vec(),
    );
    assert!(result.is_ok());
    assert!(store.reflog.is_empty(), "no reflog entries without changes");
    let outcome = build_outcome(out, vec![], r, b"pack".to_vec(), bundle.keep_marker, b"keep".to_vec());
    assert!(matches!(outcome.status, SessionStatus::NoChange));
}

#[test]
fn a_failing_concurrency_check_changes_nothing_and_keeps_the_bundle() {
    // Plan against main -> 42, but a concurrent writer moved it to 43.
    let adv = vec![remote_ref(b"refs/heads/main", 50)];
    let specs = vec![fetch_spec(b"refs/heads/main", b"refs/heads/main", true)];
    let planned_against = vec![LocalRef { name: b"refs/heads/main".to_vec(), target: Target::Id(42) }];
    let out = match_specs(&adv, &specs, TagPolicy::Skip).unwrap();
    let r = plan(&adv, &specs, &out.extra_refspecs, &out.mappings, &planned_against, &vec![], &None);
    assert_eq!(r.edits.len(), 1);

    let mut store = RefStoreState {
        refs: vec![LocalRef { name: b"refs/heads/main".to_vec(), target: Target::Id(43) }],
        reflog: vec![],
    };
    let mut shallow = ShallowBoundary { commits: vec![9] };
    let mut bundle = sealed_bundle();
    let result = apply(
        &mut store,
        &mut shallow,
        &mut bundle,
        &r.edits,
        &ShallowBoundary::empty_boundary(),
        SessionKind::Fetch,
        &b"origin".to_vec(),
    );
    match result {
        Err(ApplyError::RefConflict { ref_name }) => {
            assert_eq!(ref_name, b"refs/heads/main".to_vec());
        },
        Ok(_) => panic!("the conflicting edit must fail"),
    }
    assert_eq!(store.refs.len(), 1);
    assert_eq!(store.refs[0].target, Target::Id(43), "no ref is observably changed");
    assert!(store.reflog.is_empty());
    assert_eq!(shallow.commits, vec![9], "the boundary file is untouched");
    assert!(bundle.keep_marker, "the keep marker remains for manual recovery");
    assert!(bundle.sealed);
}

#[test]
fn successful_apply_writes_the_new_boundary() {
    let mut store = fresh_store();
    let mut shallow = ShallowBoundary { commits: vec![1] };
    let mut bundle = sealed_bundle();
    let result = apply(
        &mut store,
        &mut shallow,
        &mut bundle,
        &vec![],
        &ShallowBoundary { commits: vec![7, 8] },
        SessionKind::Fetch,
        &b"origin".to_vec(),
    );
    assert!(result.is_ok());
    assert_eq!(shallow.commits, vec![7, 8]);
    assert!(!bundle.keep_marker);
}
