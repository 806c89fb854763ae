//! Transactional application of a fetch's results: the ref edits, the shallow
//! boundary and the pack bundle's keep marker move together or not at all.
//!
//! The pack bundle is sealed, durable and keep-marked before application
//! starts; the keep marker falls only after every ref edit and the boundary
//! are durably written, so garbage collection never reclaims objects an
//! in-flight edit might still need. A failed concurrency check leaves every
//! ref, the reflog, the boundary and the keep marker exactly as they were.

use vstd::prelude::*;

use crate::bytes::{bytes_copy, bytes_eq};
use crate::plan::{
    refs_models, target_copy, Change, ChangeModel, Edit, EditModel, LocalRef, LocalRefModel,
    edits_models,
};
use crate::refspec::{target_eq, Target, TargetModel};
use crate::shallow::ShallowBoundary;

verus! {

/// One appended reflog line.
#[derive(Clone, PartialEq, Eq, Debug)]
pub struct ReflogEntry {
    /// The ref the line belongs to.
    pub ref_name: Vec<u8>,
    /// The line itself.
    pub line: Vec<u8>,
}

/// The mathematical value of a `ReflogEntry`.
pub struct ReflogEntryModel {
    /// The ref the line belongs to.
    pub ref_name: Seq<u8>,
    /// The line itself.
    pub line: Seq<u8>,
}

impl View for ReflogEntry {
    type V = ReflogEntryModel;

    open spec fn view(&self) -> ReflogEntryModel {
        ReflogEntryModel { ref_name: self.ref_name@, line: self.line@ }
    }
}

/// The mathematical values of a reflog.
pub open spec fn reflog_models(rs: Seq<ReflogEntry>) -> Seq<ReflogEntryModel> {
    rs.map_values(|r: ReflogEntry| r@)
}

/// The persisted ref state this library mutates only through `apply`.
pub struct RefStoreState {
    /// The current local refs.
    pub refs: Vec<LocalRef>,
    /// The append-only reflog.
    pub reflog: Vec<ReflogEntry>,
}

/// A sealed, not-yet-linked unit of transferred objects.
pub struct PackBundle {
    /// The bundle is durably written and complete.
    pub sealed: bool,
    /// The marker that keeps garbage collection away until the referencing
    /// refs are written.
    pub keep_marker: bool,
}

/// Application failed on a concurrency check.
#[derive(Clone, PartialEq, Eq, Debug)]
pub enum ApplyError {
    /// A ref's current value was not the expected one: a concurrent writer
    /// changed it since planning.
    RefConflict {
        /// The ref whose check failed.
        ref_name: Vec<u8>,
    },
}

/// What initialized the repository this session writes into.
#[derive(Copy, Clone, PartialEq, Eq, Structural, Debug)]
pub enum SessionKind {
    /// The session initialized a new repository.
    InitialClone,
    /// The session fetched into an existing repository.
    Fetch,
}

/// The reflog verb of a session kind: `clone` or `fetch`.
pub open spec fn verb(kind: SessionKind) -> Seq<u8> {
    match kind {
        SessionKind::InitialClone => seq![99u8, 108u8, 111u8, 110u8, 101u8],
        SessionKind::Fetch => seq![102u8, 101u8, 116u8, 99u8, 104u8],
    }
}

/// The reflog line of a session: `<verb>: from <source>`, a pure function of
/// session kind and source description, independent of edit count.
pub open spec fn reflog_line(kind: SessionKind, source: Seq<u8>) -> Seq<u8> {
    verb(kind) + seq![58u8, 32u8, 102u8, 114u8, 111u8, 109u8, 32u8] + source
}

/// Build the reflog line of this session.
pub fn reflog_message(kind: SessionKind, source: &Vec<u8>) -> (r: Vec<u8>)
    ensures
        r@ == reflog_line(kind, source@),
{
    let mut r: Vec<u8> = Vec::new();
    match kind {
        SessionKind::InitialClone => {
            r.push(99);
            r.push(108);
            r.push(111);
            r.push(110);
            r.push(101);
        },
        SessionKind::Fetch => {
            r.push(102);
            r.push(101);
            r.push(116);
            r.push(99);
            r.push(104);
        },
    }
    r.push(58);
    r.push(32);
    r.push(102);
    r.push(114);
    r.push(111);
    r.push(109);
    r.push(32);
    let ghost head = r@;
    proof {
        assert(head =~= verb(kind) + seq![58u8, 32u8, 102u8, 114u8, 111u8, 109u8, 32u8]);
    }
    crate::bytes::bytes_extend(&mut r, source);
    r
}

/// The index of the first ref named `name`, or `-1`.
pub open spec fn index_of_ref(refs: Seq<LocalRefModel>, name: Seq<u8>) -> int
    decreases refs.len(),
{
    if refs.len() == 0 {
        -1
    } else if refs[0].name == name {
        0
    } else {
        let r = index_of_ref(refs.skip(1), name);
        if r == -1 {
            -1
        } else {
            r + 1
        }
    }
}

/// A first match at `i` is what `index_of_ref` finds.
proof fn lemma_index_of_ref_found(refs: Seq<LocalRefModel>, name: Seq<u8>, i: int)
    requires
        0 <= i < refs.len(),
        refs[i].name == name,
        forall|t: int| 0 <= t < i ==> refs[t].name != name,
    ensures
        index_of_ref(refs, name) == i,
    decreases i,
{
    if i > 0 {
        assert(refs.skip(1)[i - 1] == refs[i]);
        assert forall|t: int| 0 <= t < i - 1 implies refs.skip(1)[t].name != name by {
            assert(refs.skip(1)[t] == refs[t + 1]);
        }
        lemma_index_of_ref_found(refs.skip(1), name, i - 1);
    }
}

/// Without a match, `index_of_ref` finds nothing.
proof fn lemma_index_of_ref_none(refs: Seq<LocalRefModel>, name: Seq<u8>)
    requires
        forall|t: int| 0 <= t < refs.len() ==> refs[t].name != name,
    ensures
        index_of_ref(refs, name) == -1,
    decreases refs.len(),
{
    if refs.len() > 0 {
        assert forall|t: int| 0 <= t < refs.skip(1).len() implies refs.skip(1)[t].name != name by {
            assert(refs.skip(1)[t] == refs[t + 1]);
        }
        lemma_index_of_ref_none(refs.skip(1), name);
    }
}

/// The current value of `name` among the refs, for the concurrency check.
pub open spec fn current_of(refs: Seq<LocalRefModel>, name: Seq<u8>) -> Option<TargetModel> {
    let i = index_of_ref(refs, name);
    if i == -1 {
        None
    } else {
        Some(refs[i].target)
    }
}

/// An edit's precondition: the ref still has the expected value (`None`: the
/// ref must not exist yet). A delete carries no precondition here.
pub open spec fn edit_precondition_holds(refs: Seq<LocalRefModel>, e: EditModel) -> bool {
    match e.change {
        ChangeModel::Update { expected_old, .. } => current_of(refs, e.ref_name) == expected_old,
        ChangeModel::Delete => true,
    }
}

/// Every edit's precondition holds against the state before application.
pub open spec fn all_preconditions_hold(refs: Seq<LocalRefModel>, es: Seq<EditModel>) -> bool {
    forall|k: int| 0 <= k < es.len() ==> edit_precondition_holds(refs, #[trigger] es[k])
}

/// One edit applied to the refs.
pub open spec fn apply_one(refs: Seq<LocalRefModel>, e: EditModel) -> Seq<LocalRefModel> {
    match e.change {
        ChangeModel::Update { new_target, .. } => {
            let i = index_of_ref(refs, e.ref_name);
            if i == -1 {
                refs.push(LocalRefModel { name: e.ref_name, target: new_target })
            } else {
                refs.update(i, LocalRefModel { name: e.ref_name, target: new_target })
            }
        },
        ChangeModel::Delete => {
            let i = index_of_ref(refs, e.ref_name);
            if i == -1 {
                refs
            } else {
                refs.remove(i)
            }
        },
    }
}

/// All edits applied in order.
pub open spec fn apply_edits_spec(refs: Seq<LocalRefModel>, es: Seq<EditModel>) -> Seq<
    LocalRefModel,
>
    decreases es.len(),
{
    if es.len() == 0 {
        refs
    } else {
        apply_one(apply_edits_spec(refs, es.drop_last()), es.last())
    }
}

/// Whether an edit changes its ref and thus earns a reflog line.
pub open spec fn edit_changes(e: EditModel) -> bool {
    match e.change {
        ChangeModel::Update { new_target, expected_old, .. } => expected_old != Some(new_target),
        ChangeModel::Delete => false,
    }
}

/// The reflog lines application appends: one per changing edit, in order,
/// all carrying this session's line.
pub open spec fn reflog_additions(
    es: Seq<EditModel>,
    kind: SessionKind,
    source: Seq<u8>,
) -> Seq<ReflogEntryModel>
    decreases es.len(),
{
    if es.len() == 0 {
        Seq::empty()
    } else {
        reflog_additions(es.drop_last(), kind, source) + if edit_changes(es.last()) {
            seq![
                ReflogEntryModel {
                    ref_name: es.last().ref_name,
                    line: reflog_line(kind, source),
                },
            ]
        } else {
            Seq::empty()
        }
    }
}



/// Seal the pack bundle at its durable, not-yet-referenced location, under a
/// keep marker, before anything references it: partial pack writes can then
/// never corrupt existing state.
pub fn seal_bundle(bundle: &mut PackBundle)
    ensures
        final(bundle).sealed,
        final(bundle).keep_marker,
{
    bundle.sealed = true;
    bundle.keep_marker = true;
}

/// Find the position of the first ref named `name`.
fn find_ref(refs: &Vec<LocalRef>, name: &Vec<u8>) -> (r: Option<usize>)
    ensures
        match r {
            Some(i) => (i as int) < refs@.len() && index_of_ref(refs_models(refs@), name@)
                == i as int,
            None => index_of_ref(refs_models(refs@), name@) == -1,
        },
{
    let mut k: usize = 0;
    while k < refs.len()
        invariant
            k <= refs@.len(),
            forall|t: int| 0 <= t < k ==> refs_models(refs@)[t].name != name@,
        decreases refs@.len() - k,
    {
        if bytes_eq(&refs[k].name, name) {
            proof {
                assert(refs_models(refs@)[k as int].name == name@);
                lemma_index_of_ref_found(refs_models(refs@), name@, k as int);
            }
            return Some(k);
        }
        proof {
            assert(refs_models(refs@)[k as int].name == refs@[k as int].name@);
        }
        k += 1;
    }
    proof {
        lemma_index_of_ref_none(refs_models(refs@), name@);
    }
    None
}

/// The current value of `name`, for the concurrency check.
fn current_ref(refs: &Vec<LocalRef>, name: &Vec<u8>) -> (r: Option<Target>)
    ensures
        (match r {
            Some(t) => Some(t@),
            None => None::<TargetModel>,
        }) == current_of(refs_models(refs@), name@),
{
    match find_ref(refs, name) {
        Some(i) => Some(target_copy(&refs[i].target)),
        None => None,
    }
}

/// Apply the ref edits, the new shallow boundary and the pack bundle's keep
/// marker as one unit.
///
/// Every edit's expected-old-value check runs against the state before any
/// write: if one fails, the call returns `RefConflict` with nothing changed
/// and the keep marker still in place, so the sealed bundle stays protected.
/// On success the edits land in order, one reflog line per changing edit is
/// appended, the boundary is written, and only then does the keep marker fall.
#[verifier::loop_isolation(false)]
pub fn apply(
    store: &mut RefStoreState,
    shallow: &mut ShallowBoundary,
    bundle: &mut PackBundle,
    edits: &Vec<Edit>,
    new_boundary: &ShallowBoundary,
    kind: SessionKind,
    source: &Vec<u8>,
) -> (r: Result<(), ApplyError>)
    requires
        old(bundle).sealed,
        old(bundle).keep_marker,
    ensures
        r is Ok <==> all_preconditions_hold(
            refs_models(old(store).refs@),
            edits_models(edits@),
        ),
        match r {
            Ok(_) => {
                &&& refs_models(final(store).refs@) == apply_edits_spec(
                    refs_models(old(store).refs@),
                    edits_models(edits@),
                )
                &&& reflog_models(final(store).reflog@) == reflog_models(old(store).reflog@)
                    + reflog_additions(edits_models(edits@), kind, source@)
                &&& final(shallow).commits@ == new_boundary.commits@
                &&& final(bundle).sealed
                &&& !final(bundle).keep_marker
            },
            Err(e) => {
                &&& *final(store) == *old(store)
                &&& *final(shallow) == *old(shallow)
                &&& *final(bundle) == *old(bundle)
                &&& final(bundle).keep_marker
                &&& (e matches ApplyError::RefConflict { ref_name } && exists|k: int|
                    0 <= k < edits@.len() && (#[trigger] edits@[k])@.ref_name == ref_name@
                        && !edit_precondition_holds(refs_models(old(store).refs@), edits@[k]@))
            },
        },
{
    let ghost refs0 = refs_models(old(store).refs@);
    let ghost ems = edits_models(edits@);
    let mut k: usize = 0;
    while k < edits.len()
        invariant
            k <= edits@.len(),
            forall|t: int| 0 <= t < k ==> edit_precondition_holds(refs0, #[trigger] ems[t]),
        decreases edits@.len() - k,
    {
        let e = &edits[k];
        proof {
            assert(ems[k as int] == edits@[k as int]@);
        }
        match &e.change {
            Change::Update { expected_old, .. } => {
                let cur = current_ref(&store.refs, &e.ref_name);
                let ok: bool = match (&cur, expected_old) {
                    (None, None) => true,
                    (Some(c), Some(x)) => target_eq(c, x),
                    _ => false,
                };
                proof {
                    assert(ok == edit_precondition_holds(refs0, ems[k as int]));
                }
                if !ok {
                    return Err(ApplyError::RefConflict { ref_name: bytes_copy(&e.ref_name) });
                }
            },
            Change::Delete => {},
        }
        k += 1;
    }
    let ghost pre_reflog = reflog_models(old(store).reflog@);
    proof {
        assert(ems.take(0) =~= Seq::<EditModel>::empty());
        assert(pre_reflog + reflog_additions(ems.take(0), kind, source@) =~= pre_reflog);
    }
    let mut k: usize = 0;
    while k < edits.len()
        invariant
            k <= edits@.len(),
            refs_models(store.refs@) == apply_edits_spec(refs0, ems.take(k as int)),
            reflog_models(store.reflog@) == pre_reflog + reflog_additions(
                ems.take(k as int),
                kind,
                source@,
            ),
        decreases edits@.len() - k,
    {
        let e = &edits[k];
        let ghost cur_refs = refs_models(store.refs@);
        let ghost cur_log = reflog_models(store.reflog@);
        proof {
            assert(ems[k as int] == edits@[k as int]@);
            assert(ems.take(k + 1).drop_last() =~= ems.take(k as int));
            assert(ems.take(k + 1).last() == ems[k as int]);
        }
        match &e.change {
            Change::Update { new_target, expected_old, .. } => {
                let nr = LocalRef {
                    name: bytes_copy(&e.ref_name),
                    target: target_copy(new_target),
                };
                match find_ref(&store.refs, &e.ref_name) {
                    Some(i) => {
                        store.refs.set(i, nr);
                        proof {
                            assert(refs_models(store.refs@) =~= apply_one(
                                cur_refs,
                                ems[k as int],
                            ));
                        }
                    },
                    None => {
                        store.refs.push(nr);
                        proof {
                            assert(refs_models(store.refs@) =~= apply_one(
                                cur_refs,
                                ems[k as int],
                            ));
                        }
                    },
                }
                let changes: bool = match expected_old {
                    Some(x) => !target_eq(x, new_target),
                    None => true,
                };
                proof {
                    assert(changes == edit_changes(ems[k as int]));
                }
                if changes {
                    let line = reflog_message(kind, source);
                    store.reflog.push(ReflogEntry { ref_name: bytes_copy(&e.ref_name), line });
                    proof {
                        assert(reflog_models(store.reflog@) =~= cur_log + seq![
                            ReflogEntryModel {
                                ref_name: ems[k as int].ref_name,
                                line: reflog_line(kind, source@),
                            },
                        ]);
                        assert(reflog_models(store.reflog@) =~= pre_reflog + reflog_additions(
                            ems.take(k + 1),
                            kind,
                            source@,
                        ));
                    }
                } else {
                    proof {
                        assert(reflog_additions(ems.take(k + 1), kind, source@)
                            =~= reflog_additions(ems.take(k as int), kind, source@));
                    }
                }
            },
            Change::Delete => {
                match find_ref(&store.refs, &e.ref_name) {
                    Some(i) => {
                        store.refs.remove(i);
                        proof {
                            assert(refs_models(store.refs@) =~= apply_one(
                                cur_refs,
                                ems[k as int],
                            ));
                        }
                    },
                    None => {
                        proof {
                            assert(apply_one(cur_refs, ems[k as int]) == cur_refs);
                        }
                    },
                }
                proof {
                    assert(reflog_additions(ems.take(k + 1), kind, source@) =~= reflog_additions(
                        ems.take(k as int),
                        kind,
                        source@,
                    ));
                }
            },
        }
        k += 1;
    }
    proof {
        assert(ems.take(ems.len() as int) == ems);
    }
    shallow.commits = crate::shallow::bytes_copy_u64(&new_boundary.commits);
    bundle.keep_marker = false;
    Ok(())
}

} // verus!
