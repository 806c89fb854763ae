//! Planning of local ref edits: what each mapping does to the local ref store,
//! classified by why it happens.
//!
//! The planner is a pure function of the advertisement, the rules, the current
//! local refs, the collaborator's ancestry answers and the mappings; its
//! outcome is pinned down by `classify` and the last-writer-wins collapse of
//! duplicate destinations, where an explicit rule always beats an implicit one.

use vstd::prelude::*;

use crate::bytes::{bytes_copy, bytes_eq};
use crate::refspec::{
    target_eq, Mapping, MappingModel, RefSpec, RemoteRef, Source, SpecIndex, Target, TargetModel,
};

verus! {

/// One local reference with its current target.
#[derive(Clone, PartialEq, Eq, Debug)]
pub struct LocalRef {
    /// The full name of the reference.
    pub name: Vec<u8>,
    /// What the reference currently points at.
    pub target: Target,
}

/// The change an edit applies to its ref.
#[derive(Clone, PartialEq, Eq, Debug)]
pub enum Change {
    /// Point the ref at a new target.
    Update {
        /// The target to write.
        new_target: Target,
        /// The value the ref must still have when the edit is applied, as a
        /// concurrency guard; `None` when the ref must not exist yet.
        expected_old: Option<Target>,
        /// The update was allowed regardless of fast-forward status.
        forced: bool,
    },
    /// Remove the ref.
    Delete,
}

/// One local ref to be written.
#[derive(Clone, PartialEq, Eq, Debug)]
pub struct Edit {
    /// The full name of the local ref.
    pub ref_name: Vec<u8>,
    /// What happens to it.
    pub change: Change,
    /// Follow a symbolic ref to its target instead of writing the symbolic
    /// ref itself.
    pub deref_symbolic: bool,
}

/// The mathematical value of a `Change`.
pub enum ChangeModel {
    /// Point the ref at a new target.
    Update {
        /// The target to write.
        new_target: TargetModel,
        /// The concurrency guard.
        expected_old: Option<TargetModel>,
        /// The update ignores fast-forward status.
        forced: bool,
    },
    /// Remove the ref.
    Delete,
}

/// The mathematical value of an `Edit`.
pub struct EditModel {
    /// The full name of the local ref.
    pub ref_name: Seq<u8>,
    /// What happens to it.
    pub change: ChangeModel,
    /// Follow a symbolic ref instead of writing it.
    pub deref_symbolic: bool,
}

impl View for Change {
    type V = ChangeModel;

    open spec fn view(&self) -> ChangeModel {
        match self {
            Change::Update { new_target, expected_old, forced } => ChangeModel::Update {
                new_target: new_target@,
                expected_old: match expected_old {
                    Some(t) => Some(t@),
                    None => None,
                },
                forced: *forced,
            },
            Change::Delete => ChangeModel::Delete,
        }
    }
}

impl View for Edit {
    type V = EditModel;

    open spec fn view(&self) -> EditModel {
        EditModel { ref_name: self.ref_name@, change: self.change@, deref_symbolic: self.deref_symbolic }
    }
}


/// The mathematical value of a `LocalRef`.
pub struct LocalRefModel {
    /// The full name of the reference.
    pub name: Seq<u8>,
    /// What the reference points at.
    pub target: TargetModel,
}

impl View for LocalRef {
    type V = LocalRefModel;

    open spec fn view(&self) -> LocalRefModel {
        LocalRefModel { name: self.name@, target: self.target@ }
    }
}

/// The mathematical values of a list of local refs.
pub open spec fn refs_models(rs: Seq<LocalRef>) -> Seq<LocalRefModel> {
    rs.map_values(|r: LocalRef| r@)
}

/// Why an edit exists, or why a mapping produced none.
#[derive(Copy, Clone, PartialEq, Eq, Structural, Debug)]
pub enum Mode {
    /// A configured refspec matched the advertised ref.
    ExplicitInRemote,
    /// The tag-following rule matched the advertised tag.
    ImplicitTag,
    /// The tag is known locally by peeled lookup although the remote's
    /// advertisement of this round omitted it.
    ImplicitTagNotSentByRemote,
    /// The local ref already has the remote's value.
    NoChangeNeeded,
    /// A non-forced update that would move the ref backward was rejected.
    RejectedNonFastForward,
}

/// Why a mapping's edit exists, or why none does, for reporting.
#[derive(Copy, Clone, PartialEq, Eq, Structural, Debug)]
pub struct UpdateReport {
    /// The index of the mapping this reports on.
    pub mapping_index: usize,
    /// The classification of what was planned for it.
    pub mode: Mode,
}

/// What the planner hands on.
pub struct UpdateRefs {
    /// The local refs to write, one edit per destination.
    pub edits: Vec<Edit>,
    /// One report per mapping, in mapping order.
    pub updates: Vec<UpdateReport>,
}

/// Everything classification depends on, as mathematical values.
pub struct PlanInputs {
    /// The advertisement of this round.
    pub adv: Seq<RemoteRef>,
    /// The configured refspecs.
    pub specs: Seq<RefSpec>,
    /// The synthesized extra refspecs.
    pub extra: Seq<RefSpec>,
    /// The current local refs.
    pub locals: Seq<LocalRef>,
    /// The collaborator's ancestry answers: `(old, new)` present means `old`
    /// is an ancestor of `new`.
    pub ancestry: Seq<(u64, u64)>,
    /// The branch `HEAD` follows when the repository has no history yet.
    pub unborn_head: Option<Seq<u8>>,
    /// The mappings being planned.
    pub mappings: Seq<MappingModel>,
}

/// The current target of `name`, scanning the local refs in order.
pub open spec fn lookup_local(locals: Seq<LocalRef>, name: Seq<u8>) -> Option<TargetModel>
    decreases locals.len(),
{
    if locals.len() == 0 {
        None
    } else if locals[0].name@ == name {
        Some(locals[0].target@)
    } else {
        lookup_local(locals.skip(1), name)
    }
}

/// The local tracking name of the first mapping whose advertised ref is named
/// `sym` and which stores a local ref.
pub open spec fn first_tracking(
    adv: Seq<RemoteRef>,
    ms: Seq<MappingModel>,
    sym: Seq<u8>,
) -> Option<Seq<u8>>
    decreases ms.len(),
{
    if ms.len() == 0 {
        None
    } else if (ms[0].source matches Source::Advertised(ai) && (ai as int) < adv.len()
        && adv[ai as int].name@ == sym) && ms[0].local is Some {
        Some(ms[0].local->0)
    } else {
        first_tracking(adv, ms.skip(1), sym)
    }
}

/// The direct id of the first advertised ref named `sym`, if it has one.
pub open spec fn first_advertised_id(adv: Seq<RemoteRef>, sym: Seq<u8>) -> Option<u64>
    decreases adv.len(),
{
    if adv.len() == 0 {
        None
    } else if adv[0].name@ == sym && adv[0].target@ matches TargetModel::Id(id) {
        Some(adv[0].target@->Id_0)
    } else {
        first_advertised_id(adv.skip(1), sym)
    }
}

/// Whether the rule behind mapping `m` carries the force flag.
pub open spec fn mapping_force(pi: PlanInputs, m: MappingModel) -> bool {
    match m.spec_index {
        SpecIndex::ExplicitInRemote(si) => (si as int) < pi.specs.len() && pi.specs[si as int].force,
        SpecIndex::Implicit(ti) => (ti as int) < pi.extra.len() && pi.extra[ti as int].force,
    }
}

/// The target a mapping's edit would write: the advertised target, with a
/// symbolic target resolved to the local tracking ref of the name it points
/// at, or failing that to that name's directly advertised id.
pub open spec fn new_target(pi: PlanInputs, m: MappingModel) -> Option<TargetModel> {
    match m.source {
        Source::Detached(id) => Some(TargetModel::Id(id)),
        Source::Advertised(ai) => if (ai as int) >= pi.adv.len() {
            None
        } else {
            match pi.adv[ai as int].target@ {
                TargetModel::Id(id) => Some(TargetModel::Id(id)),
                TargetModel::Symbolic(sym) => match first_tracking(pi.adv, pi.mappings, sym) {
                    Some(local) => Some(TargetModel::Symbolic(local)),
                    None => match first_advertised_id(pi.adv, sym) {
                        Some(id) => Some(TargetModel::Id(id)),
                        None => None,
                    },
                },
            }
        },
    }
}

/// The mode an edit-producing mapping reports.
pub open spec fn base_mode(m: MappingModel) -> Mode {
    match m.spec_index {
        SpecIndex::ExplicitInRemote(_) => Mode::ExplicitInRemote,
        SpecIndex::Implicit(_) => match m.source {
            Source::Advertised(_) => Mode::ImplicitTag,
            Source::Detached(_) => Mode::ImplicitTagNotSentByRemote,
        },
    }
}

/// What classification decides for one mapping.
pub struct ClassifyResult {
    /// The edit the mapping asks for, if any.
    pub edit: Option<EditModel>,
    /// The classification reported for it.
    pub mode: Mode,
}

/// The classification of mapping `mi`:
/// - no local destination or no computable target: nothing to do;
/// - destination absent locally: an update, forced by the rule's flag or when
///   the destination is the unborn branch `HEAD` follows;
/// - destination already equal: no change needed;
/// - otherwise an update if the rule forces it or the move is a fast-forward
///   of direct ids, with the current value as concurrency guard;
/// - otherwise the mapping is rejected as a non-fast-forward, with no edit.
pub open spec fn classify(pi: PlanInputs, mi: int) -> ClassifyResult {
    let m = pi.mappings[mi];
    match m.local {
        None => ClassifyResult { edit: None, mode: Mode::NoChangeNeeded },
        Some(lname) => match new_target(pi, m) {
            None => ClassifyResult { edit: None, mode: Mode::NoChangeNeeded },
            Some(nt) => match lookup_local(pi.locals, lname) {
                None => ClassifyResult {
                    edit: Some(
                        EditModel {
                            ref_name: lname,
                            change: ChangeModel::Update {
                                new_target: nt,
                                expected_old: None,
                                forced: mapping_force(pi, m) || pi.unborn_head == Some(lname),
                            },
                            deref_symbolic: false,
                        },
                    ),
                    mode: base_mode(m),
                },
                Some(cur) => if cur == nt {
                    ClassifyResult { edit: None, mode: Mode::NoChangeNeeded }
                } else if mapping_force(pi, m) || (cur matches TargetModel::Id(o)
                    && nt matches TargetModel::Id(n) && pi.ancestry.contains((o, n))) {
                    ClassifyResult {
                        edit: Some(
                            EditModel {
                                ref_name: lname,
                                change: ChangeModel::Update {
                                    new_target: nt,
                                    expected_old: Some(cur),
                                    forced: mapping_force(pi, m),
                                },
                                deref_symbolic: false,
                            },
                        ),
                        mode: base_mode(m),
                    }
                } else {
                    ClassifyResult { edit: None, mode: Mode::RejectedNonFastForward }
                },
            },
        },
    }
}

/// An edit paired with whether an explicit rule produced it.
pub struct EditEntry {
    /// The planned edit.
    pub edit: EditModel,
    /// The producing rule is a configured refspec.
    pub explicit: bool,
}

/// The index of the first entry for `name`, or `-1`.
pub open spec fn index_of_name(s: Seq<EditEntry>, name: Seq<u8>) -> int
    decreases s.len(),
{
    if s.len() == 0 {
        -1
    } else if s[0].edit.ref_name == name {
        0
    } else {
        let r = index_of_name(s.skip(1), name);
        if r == -1 {
            -1
        } else {
            r + 1
        }
    }
}

/// Fold one more edit into the accumulated plan: a later writer replaces an
/// earlier one for the same ref, except that an explicit rule's edit is never
/// replaced by an implicit one.
pub open spec fn upsert(acc: Seq<EditEntry>, e: EditEntry) -> Seq<EditEntry> {
    let i = index_of_name(acc, e.edit.ref_name);
    if i == -1 {
        acc.push(e)
    } else if acc[i].explicit && !e.explicit {
        acc
    } else {
        acc.update(i, e)
    }
}

/// The edits the first `n` mappings ask for, in mapping order, before the
/// collapse of duplicate destinations.
pub open spec fn edit_stream(pi: PlanInputs, n: int) -> Seq<EditEntry>
    decreases n,
{
    if n <= 0 {
        Seq::empty()
    } else {
        edit_stream(pi, n - 1) + match classify(pi, n - 1).edit {
            Some(e) => seq![
                EditEntry {
                    edit: e,
                    explicit: pi.mappings[n - 1].spec_index is ExplicitInRemote,
                },
            ],
            None => Seq::empty(),
        }
    }
}

/// The accumulated plan after folding a whole stream.
pub open spec fn dedup_stream(s: Seq<EditEntry>) -> Seq<EditEntry>
    decreases s.len(),
{
    if s.len() == 0 {
        Seq::empty()
    } else {
        upsert(dedup_stream(s.drop_last()), s.last())
    }
}


/// No two entries share a destination ref.
pub open spec fn entries_unique(s: Seq<EditEntry>) -> bool {
    forall|i: int, j: int|
        0 <= i < j < s.len() ==> (#[trigger] s[i]).edit.ref_name != (#[trigger] s[j]).edit.ref_name
}

/// What `index_of_name` finding or missing a name means.
proof fn lemma_index_of_name_properties(s: Seq<EditEntry>, name: Seq<u8>)
    ensures
        index_of_name(s, name) == -1 ==> forall|t: int|
            0 <= t < s.len() ==> (#[trigger] s[t]).edit.ref_name != name,
        index_of_name(s, name) != -1 ==> 0 <= index_of_name(s, name) < s.len() && s[index_of_name(
            s,
            name,
        )].edit.ref_name == name,
    decreases s.len(),
{
    if s.len() > 0 && s[0].edit.ref_name != name {
        lemma_index_of_name_properties(s.skip(1), name);
        if index_of_name(s, name) == -1 {
            assert forall|t: int| 0 <= t < s.len() implies (#[trigger] s[t]).edit.ref_name
                != name by {
                if t > 0 {
                    assert(s.skip(1)[t - 1] == s[t]);
                }
            }
        } else {
            assert(s.skip(1)[index_of_name(s.skip(1), name)] == s[index_of_name(s, name)]);
        }
    }
}

/// Folding one more edit keeps destinations unique.
proof fn lemma_upsert_unique(acc: Seq<EditEntry>, e: EditEntry)
    requires
        entries_unique(acc),
    ensures
        entries_unique(upsert(acc, e)),
{
    lemma_index_of_name_properties(acc, e.edit.ref_name);
    let i = index_of_name(acc, e.edit.ref_name);
    if i == -1 {
        let r = acc.push(e);
        assert forall|p: int, q: int| 0 <= p < q < r.len() implies (#[trigger] r[p]).edit.ref_name
            != (#[trigger] r[q]).edit.ref_name by {
            if q == acc.len() {
                assert(r[p] == acc[p]);
            } else {
                assert(r[p] == acc[p] && r[q] == acc[q]);
            }
        }
    } else if !(acc[i].explicit && !e.explicit) {
        let r = acc.update(i, e);
        assert forall|p: int, q: int| 0 <= p < q < r.len() implies (#[trigger] r[p]).edit.ref_name
            != (#[trigger] r[q]).edit.ref_name by {
            assert(acc[p].edit.ref_name != acc[q].edit.ref_name);
        }
    }
}

/// The collapsed plan holds at most one edit per destination ref.
pub proof fn lemma_one_edit_per_destination(s: Seq<EditEntry>)
    ensures
        entries_unique(dedup_stream(s)),
    decreases s.len(),
{
    if s.len() > 0 {
        lemma_one_edit_per_destination(s.drop_last());
        lemma_upsert_unique(dedup_stream(s.drop_last()), s.last());
    }
}

/// The edits the planner emits for these inputs.
pub open spec fn planned_edits(pi: PlanInputs) -> Seq<EditModel> {
    dedup_stream(edit_stream(pi, pi.mappings.len() as int)).map_values(|e: EditEntry| e.edit)
}

/// The planner's inputs as mathematical values.
pub open spec fn plan_inputs(
    advertised: Seq<RemoteRef>,
    explicit_specs: Seq<RefSpec>,
    extra_refspecs: Seq<RefSpec>,
    locals: Seq<LocalRef>,
    ancestry: Seq<(u64, u64)>,
    unborn_head: Option<Vec<u8>>,
    mappings: Seq<Mapping>,
) -> PlanInputs {
    PlanInputs {
        adv: advertised,
        specs: explicit_specs,
        extra: extra_refspecs,
        locals,
        ancestry,
        unborn_head: match unborn_head {
            Some(n) => Some(n@),
            None => None,
        },
        mappings: crate::refspec::mapping_models(mappings),
    }
}

/// A non-forced rule whose move is not a fast-forward never produces an edit:
/// it is classified `RejectedNonFastForward`, whatever else the mapping says.
pub proof fn lemma_fast_forward_safety(pi: PlanInputs, mi: int)
    requires
        0 <= mi < pi.mappings.len(),
        !mapping_force(pi, pi.mappings[mi]),
        pi.mappings[mi].local matches Some(lname) && lookup_local(pi.locals, lname) matches Some(
            cur,
        ) && new_target(pi, pi.mappings[mi]) matches Some(nt) && cur != nt && !(
        cur matches TargetModel::Id(o) && nt matches TargetModel::Id(n) && pi.ancestry.contains(
            (o, n),
        )),
    ensures
        classify(pi, mi).edit is None,
        classify(pi, mi).mode == Mode::RejectedNonFastForward,
{
}


/// The mathematical values of a list of edits.
pub open spec fn edits_models(es: Seq<Edit>) -> Seq<EditModel> {
    es.map_values(|e: Edit| e@)
}

/// Pair the accumulated edits with their explicit flags.
pub open spec fn zip_entries(es: Seq<Edit>, fl: Seq<bool>) -> Seq<EditEntry> {
    Seq::new(es.len(), |i: int| EditEntry { edit: es[i]@, explicit: fl[i] })
}

/// A first match at `i` is what `index_of_name` finds.
proof fn lemma_index_of_name_found(s: Seq<EditEntry>, name: Seq<u8>, i: int)
    requires
        0 <= i < s.len(),
        s[i].edit.ref_name == name,
        forall|t: int| 0 <= t < i ==> s[t].edit.ref_name != name,
    ensures
        index_of_name(s, name) == i,
    decreases i,
{
    if i > 0 {
        assert(s.skip(1)[i - 1] == s[i]);
        assert forall|t: int| 0 <= t < i - 1 implies s.skip(1)[t].edit.ref_name != name by {
            assert(s.skip(1)[t] == s[t + 1]);
        }
        lemma_index_of_name_found(s.skip(1), name, i - 1);
    }
}

/// Without a match, `index_of_name` finds nothing.
proof fn lemma_index_of_name_none(s: Seq<EditEntry>, name: Seq<u8>)
    requires
        forall|t: int| 0 <= t < s.len() ==> s[t].edit.ref_name != name,
    ensures
        index_of_name(s, name) == -1,
    decreases s.len(),
{
    if s.len() > 0 {
        assert forall|t: int| 0 <= t < s.skip(1).len() implies s.skip(1)[t].edit.ref_name
            != name by {
            assert(s.skip(1)[t] == s[t + 1]);
        }
        lemma_index_of_name_none(s.skip(1), name);
    }
}

/// Copy a target.
pub fn target_copy(t: &Target) -> (r: Target)
    ensures
        r@ == t@,
{
    match t {
        Target::Id(id) => Target::Id(*id),
        Target::Symbolic(n) => Target::Symbolic(bytes_copy(n)),
    }
}

/// Look up the current target of `name` among the refs from position `k` on.
fn lookup_local_from(locals: &Vec<LocalRef>, name: &Vec<u8>, k: usize) -> (r: Option<Target>)
    requires
        k <= locals@.len(),
    ensures
        (match r {
            Some(t) => Some(t@),
            None => None::<TargetModel>,
        }) == lookup_local(locals@.skip(k as int), name@),
    decreases locals@.len() - k,
{
    if k == locals.len() {
        proof {
            assert(locals@.skip(k as int) =~= Seq::<LocalRef>::empty());
        }
        None
    } else {
        proof {
            assert(locals@.skip(k as int)[0] == locals@[k as int]);
        }
        if bytes_eq(&locals[k].name, name) {
            Some(target_copy(&locals[k].target))
        } else {
            let r = lookup_local_from(locals, name, k + 1);
            proof {
                assert(locals@.skip(k as int).skip(1) =~= locals@.skip(k as int + 1));
            }
            r
        }
    }
}

/// The local tracking name of the first mapping from position `k` on whose
/// advertised ref is named `sym` and which stores a local ref.
fn first_tracking_from(
    advertised: &Vec<RemoteRef>,
    mappings: &Vec<Mapping>,
    sym: &Vec<u8>,
    k: usize,
) -> (r: Option<Vec<u8>>)
    requires
        k <= mappings@.len(),
    ensures
        (match r {
            Some(v) => Some(v@),
            None => None::<Seq<u8>>,
        }) == first_tracking(
            advertised@,
            crate::refspec::mapping_models(mappings@).skip(k as int),
            sym@,
        ),
    decreases mappings@.len() - k,
{
    let ghost ms = crate::refspec::mapping_models(mappings@);
    if k == mappings.len() {
        proof {
            assert(ms.skip(k as int) =~= Seq::<MappingModel>::empty());
        }
        None
    } else {
        proof {
            assert(ms.skip(k as int)[0] == mappings@[k as int]@);
        }
        let hit: bool = match mappings[k].source {
            Source::Advertised(ai) => if ai < advertised.len() {
                if bytes_eq(&advertised[ai].name, sym) {
                    match &mappings[k].local {
                        Some(_) => true,
                        None => false,
                    }
                } else {
                    false
                }
            } else {
                false
            },
            Source::Detached(_) => false,
        };
        if hit {
            match &mappings[k].local {
                Some(l) => Some(bytes_copy(l)),
                None => {
                    proof {
                        assert(false);
                    }
                    None
                },
            }
        } else {
            let r = first_tracking_from(advertised, mappings, sym, k + 1);
            proof {
                assert(ms.skip(k as int).skip(1) =~= ms.skip(k as int + 1));
            }
            r
        }
    }
}

/// The direct id of the first advertised ref from position `k` on named `sym`.
fn first_advertised_id_from(advertised: &Vec<RemoteRef>, sym: &Vec<u8>, k: usize) -> (r: Option<
    u64,
>)
    requires
        k <= advertised@.len(),
    ensures
        r == first_advertised_id(advertised@.skip(k as int), sym@),
    decreases advertised@.len() - k,
{
    if k == advertised.len() {
        proof {
            assert(advertised@.skip(k as int) =~= Seq::<RemoteRef>::empty());
        }
        None
    } else {
        proof {
            assert(advertised@.skip(k as int)[0] == advertised@[k as int]);
        }
        let hit: bool = if bytes_eq(&advertised[k].name, sym) {
            match &advertised[k].target {
                Target::Id(_) => true,
                Target::Symbolic(_) => false,
            }
        } else {
            false
        };
        if hit {
            match &advertised[k].target {
                Target::Id(id) => Some(*id),
                Target::Symbolic(_) => {
                    proof {
                        assert(false);
                    }
                    None
                },
            }
        } else {
            let r = first_advertised_id_from(advertised, sym, k + 1);
            proof {
                assert(advertised@.skip(k as int).skip(1) =~= advertised@.skip(k as int + 1));
            }
            r
        }
    }
}

/// Decide whether the ancestry answers contain the pair `(o, n)`.
pub fn contains_pair(v: &Vec<(u64, u64)>, o: u64, n: u64) -> (r: bool)
    ensures
        r == v@.contains((o, n)),
{
    let mut k: usize = 0;
    while k < v.len()
        invariant
            k <= v@.len(),
            forall|t: int| 0 <= t < k ==> v@[t] != (o, n),
        decreases v@.len() - k,
    {
        let p = v[k];
        if p.0 == o && p.1 == n {
            proof {
                assert(v@[k as int] == (o, n));
            }
            return true;
        }
        k += 1;
    }
    false
}

/// The index of the first accumulated edit for `name`.
fn find_edit(edits: &Vec<Edit>, name: &Vec<u8>) -> (r: Option<usize>)
    ensures
        match r {
            Some(i) => (i as int) < edits@.len() && edits@[i as int].ref_name@ == name@ && (
            forall|t: int| 0 <= t < i ==> edits@[t].ref_name@ != name@),
            None => forall|t: int| 0 <= t < edits@.len() ==> edits@[t].ref_name@ != name@,
        },
{
    let mut k: usize = 0;
    while k < edits.len()
        invariant
            k <= edits@.len(),
            forall|t: int| 0 <= t < k ==> edits@[t].ref_name@ != name@,
        decreases edits@.len() - k,
    {
        if bytes_eq(&edits[k].ref_name, name) {
            return Some(k);
        }
        k += 1;
    }
    None
}


/// Whether the rule behind `m` carries the force flag.
fn force_of(m: &Mapping, specs: &Vec<RefSpec>, extra: &Vec<RefSpec>) -> (r: bool)
    ensures
        r == (match m.spec_index {
            SpecIndex::ExplicitInRemote(si) => (si as int) < specs@.len()
                && specs@[si as int].force,
            SpecIndex::Implicit(ti) => (ti as int) < extra@.len() && extra@[ti as int].force,
        }),
{
    match m.spec_index {
        SpecIndex::ExplicitInRemote(si) => si < specs.len() && specs[si].force,
        SpecIndex::Implicit(ti) => ti < extra.len() && extra[ti].force,
    }
}

/// The mode an edit of `m` reports.
fn base_mode_of(m: &Mapping) -> (r: Mode)
    ensures
        r == base_mode(m@),
{
    match m.spec_index {
        SpecIndex::ExplicitInRemote(_) => Mode::ExplicitInRemote,
        SpecIndex::Implicit(_) => match m.source {
            Source::Advertised(_) => Mode::ImplicitTag,
            Source::Detached(_) => Mode::ImplicitTagNotSentByRemote,
        },
    }
}

/// Plan the local ref edits the mappings imply.
///
/// One report per mapping states its classification, in mapping order; the
/// edits hold one entry per destination ref, duplicate destinations collapsed
/// to the last writer, an explicit rule always beating an implicit one.
#[verifier::loop_isolation(false)]
pub fn plan(
    advertised: &Vec<RemoteRef>,
    explicit_specs: &Vec<RefSpec>,
    extra_refspecs: &Vec<RefSpec>,
    mappings: &Vec<Mapping>,
    local_refs: &Vec<LocalRef>,
    ancestry: &Vec<(u64, u64)>,
    unborn_head: &Option<Vec<u8>>,
) -> (r: UpdateRefs)
    ensures
        r.updates@.len() == mappings@.len(),
        forall|j: int|
            0 <= j < mappings@.len() ==> (#[trigger] r.updates@[j]).mapping_index == j
                && r.updates@[j].mode == classify(
                plan_inputs(
                    advertised@,
                    explicit_specs@,
                    extra_refspecs@,
                    local_refs@,
                    ancestry@,
                    *unborn_head,
                    mappings@,
                ),
                j,
            ).mode,
        edits_models(r.edits@) == planned_edits(
            plan_inputs(
                advertised@,
                explicit_specs@,
                extra_refspecs@,
                local_refs@,
                ancestry@,
                *unborn_head,
                mappings@,
            ),
        ),
{
    let ghost pi = plan_inputs(
        advertised@,
        explicit_specs@,
        extra_refspecs@,
        local_refs@,
        ancestry@,
        *unborn_head,
        mappings@,
    );
    let mut updates: Vec<UpdateReport> = Vec::new();
    let mut edits: Vec<Edit> = Vec::new();
    let mut flags: Vec<bool> = Vec::new();
    let mut mi: usize = 0;
    while mi < mappings.len()
        invariant
            mi <= mappings@.len(),
            updates@.len() == mi,
            forall|j: int|
                0 <= j < mi ==> (#[trigger] updates@[j]).mapping_index == j && updates@[j].mode
                    == classify(pi, j).mode,
            edits@.len() == flags@.len(),
            zip_entries(edits@, flags@) == dedup_stream(edit_stream(pi, mi as int)),
        decreases mappings@.len() - mi,
    {
        let m = &mappings[mi];
        let ghost mm = pi.mappings[mi as int];
        proof {
            assert(mm == mappings@[mi as int]@);
        }
        let mut cmode: Mode = Mode::NoChangeNeeded;
        let mut cedit: Option<Edit> = None;
        match &m.local {
            None => {
                proof {
                    assert(classify(pi, mi as int).edit is None);
                    assert(classify(pi, mi as int).mode == Mode::NoChangeNeeded);
                }
            },
            Some(lname) => {
                let nt_opt: Option<Target>;
                match m.source {
                    Source::Detached(id) => {
                        nt_opt = Some(Target::Id(id));
                        proof {
                            assert((match nt_opt {
                                Some(t) => Some(t@),
                                None => None::<TargetModel>,
                            }) == new_target(pi, mm));
                        }
                    },
                    Source::Advertised(ai) => {
                        if ai < advertised.len() {
                            match &advertised[ai].target {
                                Target::Id(id) => {
                                    nt_opt = Some(Target::Id(*id));
                                    proof {
                                        assert((match nt_opt {
                                            Some(t) => Some(t@),
                                            None => None::<TargetModel>,
                                        }) == new_target(pi, mm));
                                    }
                                },
                                Target::Symbolic(sym) => {
                                    proof {
                                        assert(crate::refspec::mapping_models(mappings@).skip(0)
                                            =~= pi.mappings);
                                        assert(advertised@.skip(0) =~= advertised@);
                                    }
                                    match first_tracking_from(advertised, mappings, sym, 0) {
                                        Some(local) => {
                                            nt_opt = Some(Target::Symbolic(local));
                                        },
                                        None => {
                                            match first_advertised_id_from(advertised, sym, 0) {
                                                Some(id) => {
                                                    nt_opt = Some(Target::Id(id));
                                                },
                                                None => {
                                                    nt_opt = None;
                                                },
                                            }
                                        },
                                    }
                                    proof {
                                        assert((match nt_opt {
                                            Some(t) => Some(t@),
                                            None => None::<TargetModel>,
                                        }) == new_target(pi, mm));
                                    }
                                },
                            }
                        } else {
                            nt_opt = None;
                            proof {
                                assert((match nt_opt {
                                    Some(t) => Some(t@),
                                    None => None::<TargetModel>,
                                }) == new_target(pi, mm));
                            }
                        }
                    },
                }
                match nt_opt {
                    None => {
                        proof {
                            assert(classify(pi, mi as int).edit is None);
                            assert(classify(pi, mi as int).mode == Mode::NoChangeNeeded);
                        }
                    },
                    Some(nt) => {
                        proof {
                            assert(local_refs@.skip(0) =~= local_refs@);
                        }
                        match lookup_local_from(local_refs, lname, 0) {
                            None => {
                                let force = force_of(m, explicit_specs, extra_refspecs);
                                let unborn: bool = match unborn_head {
                                    Some(u) => bytes_eq(u, lname),
                                    None => false,
                                };
                                let e = Edit {
                                    ref_name: bytes_copy(lname),
                                    change: Change::Update {
                                        new_target: nt,
                                        expected_old: None,
                                        forced: force || unborn,
                                    },
                                    deref_symbolic: false,
                                };
                                cmode = base_mode_of(m);
                                proof {
                                    assert(force == mapping_force(pi, mm));
                                    assert(unborn == (pi.unborn_head == Some(lname@)));
                                    assert(classify(pi, mi as int).edit == Some(e@));
                                    assert(classify(pi, mi as int).mode == cmode);
                                }
                                cedit = Some(e);
                            },
                            Some(cur) => {
                                if target_eq(&cur, &nt) {
                                    proof {
                                        assert(classify(pi, mi as int).edit is None);
                                        assert(classify(pi, mi as int).mode
                                            == Mode::NoChangeNeeded);
                                    }
                                } else {
                                    let force = force_of(m, explicit_specs, extra_refspecs);
                                    let ff: bool = match (&cur, &nt) {
                                        (Target::Id(o), Target::Id(n)) => contains_pair(
                                            ancestry,
                                            *o,
                                            *n,
                                        ),
                                        _ => false,
                                    };
                                    if force || ff {
                                        let e = Edit {
                                            ref_name: bytes_copy(lname),
                                            change: Change::Update {
                                                new_target: nt,
                                                expected_old: Some(cur),
                                                forced: force,
                                            },
                                            deref_symbolic: false,
                                        };
                                        cmode = base_mode_of(m);
                                        proof {
                                            assert(force == mapping_force(pi, mm));
                                            assert(classify(pi, mi as int).edit == Some(e@));
                                            assert(classify(pi, mi as int).mode == cmode);
                                        }
                                        cedit = Some(e);
                                    } else {
                                        cmode = Mode::RejectedNonFastForward;
                                        proof {
                                            assert(classify(pi, mi as int).edit is None);
                                            assert(classify(pi, mi as int).mode
                                                == Mode::RejectedNonFastForward);
                                        }
                                    }
                                }
                            },
                        }
                    },
                }
            },
        }
        proof {
            assert(classify(pi, mi as int).mode == cmode);
            assert((match cedit {
                Some(e) => Some(e@),
                None => None::<EditModel>,
            }) == classify(pi, mi as int).edit);
        }
        updates.push(UpdateReport { mapping_index: mi, mode: cmode });
        let ghost entries_before = zip_entries(edits@, flags@);
        match cedit {
            None => {
                proof {
                    assert(edit_stream(pi, mi as int + 1) =~= edit_stream(pi, mi as int));
                }
            },
            Some(e) => {
                let exp: bool = match m.spec_index {
                    SpecIndex::ExplicitInRemote(_) => true,
                    SpecIndex::Implicit(_) => false,
                };
                let ghost entry = EditEntry { edit: e@, explicit: exp };
                proof {
                    assert(exp == (pi.mappings[mi as int].spec_index is ExplicitInRemote));
                    assert(edit_stream(pi, mi as int + 1) == edit_stream(pi, mi as int) + seq![
                        entry,
                    ]);
                    assert((edit_stream(pi, mi as int) + seq![entry]).drop_last()
                        =~= edit_stream(pi, mi as int));
                    assert((edit_stream(pi, mi as int) + seq![entry]).last() == entry);
                    assert(dedup_stream(edit_stream(pi, mi as int + 1)) == upsert(
                        entries_before,
                        entry,
                    ));
                }
                match find_edit(&edits, &e.ref_name) {
                    None => {
                        proof {
                            assert forall|t: int|
                                0 <= t < entries_before.len() implies entries_before[t].edit.ref_name
                                != entry.edit.ref_name by {
                                assert(entries_before[t].edit.ref_name == edits@[t].ref_name@);
                            }
                            lemma_index_of_name_none(entries_before, entry.edit.ref_name);
                        }
                        edits.push(e);
                        flags.push(exp);
                        proof {
                            assert(zip_entries(edits@, flags@) =~= entries_before.push(entry));
                        }
                    },
                    Some(i) => {
                        proof {
                            assert(entries_before[i as int].edit.ref_name == entry.edit.ref_name);
                            assert forall|t: int|
                                0 <= t < i implies entries_before[t].edit.ref_name
                                != entry.edit.ref_name by {
                                assert(entries_before[t].edit.ref_name == edits@[t].ref_name@);
                            }
                            lemma_index_of_name_found(entries_before, entry.edit.ref_name, i as int);
                        }
                        if flags[i] && !exp {
                            proof {
                                assert(upsert(entries_before, entry) == entries_before);
                            }
                        } else {
                            edits.set(i, e);
                            flags.set(i, exp);
                            proof {
                                assert(zip_entries(edits@, flags@) =~= entries_before.update(
                                    i as int,
                                    entry,
                                ));
                            }
                        }
                    },
                }
            },
        }
        mi += 1;
    }
    proof {
        assert(edits_models(edits@) =~= planned_edits(pi));
    }
    UpdateRefs { edits, updates }
}

} // verus!
