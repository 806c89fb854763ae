//! Expansion of configured refspecs, and of the implicit tag-following rule,
//! against a remote's advertised references.
//!
//! The outcome is pinned down completely by spec functions over the inputs, so
//! matching is a pure function of the advertisement and the configuration:
//! repeating it against an unchanged advertisement yields identical mappings.

use vstd::prelude::*;

use crate::bytes::{bytes_copy, bytes_eq};
use crate::refspec::{
    apply_destination, at_most_one_star, has_star, lemma_star_unique, mapped_destination,
    mapping_models, matches_source, source_matches, spec_well_formed, star_at, target_eq, Mapping,
    MappingModel, RefSpec, RemoteRef, Source, SpecIndex, TargetModel,
};

verus! {

/// Whether tags the remote advertises are followed beside the configured specs.
#[derive(Copy, Clone, PartialEq, Eq, Structural, Debug)]
pub enum TagPolicy {
    /// Map only what the configured refspecs ask for.
    Skip,
    /// Also map every advertised tag under the synthesized tag refspec.
    Follow,
}

/// What the matcher hands on: the mappings, and the specs it synthesized for
/// tag following, which `SpecIndex::Implicit` indices point into.
pub struct MatchOutcome {
    /// The mappings, in configured-spec order, then tag follows in
    /// advertisement order.
    pub mappings: Vec<Mapping>,
    /// The synthesized implicit refspecs.
    pub extra_refspecs: Vec<RefSpec>,
}

/// Why matching failed.
#[derive(Clone, PartialEq, Eq, Debug)]
pub enum MatchError {
    /// A configured refspec's pattern is malformed.
    InvalidRefspecPattern {
        /// The index of the offending spec in the configured list.
        spec_index: usize,
    },
    /// Two non-force specs would write the same local ref to different targets.
    AmbiguousDestination {
        /// The contested local ref name.
        ref_name: Vec<u8>,
    },
}

/// The source pattern of the synthesized tag refspec: `refs/tags/*`.
pub open spec fn tag_pattern() -> Seq<u8> {
    seq![114u8, 101u8, 102u8, 115u8, 47u8, 116u8, 97u8, 103u8, 115u8, 47u8, 42u8]
}

/// The tag pattern is well-formed, with its wildcard last.
pub proof fn lemma_tag_pattern_wf()
    ensures
        at_most_one_star(tag_pattern()),
        has_star(tag_pattern()),
        crate::refspec::star_idx(tag_pattern()) == 10,
{
    let tp = tag_pattern();
    assert(tp.len() == 11);
    assert(tp[0] == 114u8);
    assert(tp[1] == 101u8);
    assert(tp[2] == 102u8);
    assert(tp[3] == 115u8);
    assert(tp[4] == 47u8);
    assert(tp[5] == 116u8);
    assert(tp[6] == 97u8);
    assert(tp[7] == 103u8);
    assert(tp[8] == 115u8);
    assert(tp[9] == 47u8);
    assert(tp[10] == 42u8);
    assert(star_at(tp, 10));
    assert forall|i: int| star_at(tp, i) implies i == 10 by {
        if i < 10 {
            assert(tp[i] != 42u8);
        }
    }
    lemma_star_unique(tp, 10);
}

/// The mapping one configured spec yields for one advertised ref.
pub open spec fn explicit_model(adv: Seq<RemoteRef>, s: RefSpec, si: int, ai: int) -> MappingModel {
    MappingModel {
        source: Source::Advertised(ai as usize),
        local: match s.destination {
            Some(d) => Some(mapped_destination(s.source@, d@, adv[ai].name@)),
            None => None,
        },
        spec_index: SpecIndex::ExplicitInRemote(si as usize),
    }
}

/// The mappings configured spec `si` yields, in advertisement order.
pub open spec fn models_for_spec(adv: Seq<RemoteRef>, s: RefSpec, si: int) -> Seq<MappingModel>
    decreases adv.len(),
{
    if adv.len() == 0 {
        Seq::empty()
    } else {
        models_for_spec(adv.drop_last(), s, si) + if source_matches(
            s.source@,
            adv.last().name@,
        ) {
            seq![explicit_model(adv, s, si, adv.len() - 1)]
        } else {
            Seq::empty()
        }
    }
}

/// The mappings of all configured specs, in configured order.
pub open spec fn explicit_models(adv: Seq<RemoteRef>, specs: Seq<RefSpec>) -> Seq<MappingModel>
    decreases specs.len(),
{
    if specs.len() == 0 {
        Seq::empty()
    } else {
        explicit_models(adv, specs.drop_last()) + models_for_spec(
            adv,
            specs.last(),
            specs.len() - 1,
        )
    }
}

/// The mapping tag following yields for advertised ref `ai`.
pub open spec fn implicit_model(adv: Seq<RemoteRef>, ai: int) -> MappingModel {
    MappingModel {
        source: Source::Advertised(ai as usize),
        local: Some(adv[ai].name@),
        spec_index: SpecIndex::Implicit(0),
    }
}

/// The tag-following mappings, in advertisement order.
pub open spec fn implicit_models(adv: Seq<RemoteRef>) -> Seq<MappingModel>
    decreases adv.len(),
{
    if adv.len() == 0 {
        Seq::empty()
    } else {
        implicit_models(adv.drop_last()) + if source_matches(
            tag_pattern(),
            adv.last().name@,
        ) {
            seq![implicit_model(adv, adv.len() - 1)]
        } else {
            Seq::empty()
        }
    }
}

/// Everything the matcher produces for the given inputs.
pub open spec fn expected_models(
    adv: Seq<RemoteRef>,
    specs: Seq<RefSpec>,
    policy: TagPolicy,
) -> Seq<MappingModel> {
    explicit_models(adv, specs) + if policy is Follow {
        implicit_models(adv)
    } else {
        Seq::empty()
    }
}

/// Every configured refspec is well-formed.
pub open spec fn all_well_formed(specs: Seq<RefSpec>) -> bool {
    forall|k: int| 0 <= k < specs.len() ==> spec_well_formed(#[trigger] specs[k])
}

/// Whether the rule behind a mapping carries the force flag.
pub open spec fn model_force(specs: Seq<RefSpec>, m: MappingModel) -> bool {
    match m.spec_index {
        SpecIndex::ExplicitInRemote(si) => specs[si as int].force,
        SpecIndex::Implicit(_) => false,
    }
}

/// The target a mapping would write.
pub open spec fn model_target(adv: Seq<RemoteRef>, m: MappingModel) -> TargetModel {
    match m.source {
        Source::Advertised(ai) => adv[ai as int].target@,
        Source::Detached(id) => TargetModel::Id(id),
    }
}

/// Mappings `i` and `j` would write the same local ref to different targets,
/// and neither rule carries force.
pub open spec fn conflicting_pair(
    adv: Seq<RemoteRef>,
    specs: Seq<RefSpec>,
    ms: Seq<MappingModel>,
    i: int,
    j: int,
) -> bool {
    &&& 0 <= i < ms.len()
    &&& 0 <= j < ms.len()
    &&& i != j
    &&& ms[i].local is Some
    &&& ms[i].local == ms[j].local
    &&& !model_force(specs, ms[i])
    &&& !model_force(specs, ms[j])
    &&& model_target(adv, ms[i]) != model_target(adv, ms[j])
}

/// Two non-force configured specs contest one local ref.
pub open spec fn has_ambiguity(adv: Seq<RemoteRef>, specs: Seq<RefSpec>) -> bool {
    exists|i: int, j: int| conflicting_pair(adv, specs, explicit_models(adv, specs), i, j)
}

/// A mapping of `explicit_models` points into the given lists.
pub open spec fn explicit_valid(
    adv: Seq<RemoteRef>,
    specs: Seq<RefSpec>,
    m: MappingModel,
) -> bool {
    &&& (m.spec_index matches SpecIndex::ExplicitInRemote(si) && (si as int) < specs.len())
    &&& (m.source matches Source::Advertised(ai) && (ai as int) < adv.len())
}

/// Appending a mapping appends its model.
proof fn lemma_models_push(ms: Seq<Mapping>, m: Mapping)
    ensures
        mapping_models(ms.push(m)) == mapping_models(ms) + seq![m@],
{
    assert(mapping_models(ms.push(m)) =~= mapping_models(ms) + seq![m@]);
}

/// Matching one more advertised ref extends one spec's mappings by at most one.
proof fn lemma_models_for_spec_snoc(adv: Seq<RemoteRef>, s: RefSpec, si: int, ai: int)
    requires
        0 <= ai < adv.len(),
    ensures
        models_for_spec(adv.take(ai + 1), s, si) == models_for_spec(adv.take(ai), s, si) + (
        if source_matches(s.source@, adv[ai].name@) {
            seq![explicit_model(adv, s, si, ai)]
        } else {
            Seq::<MappingModel>::empty()
        }),
{
    let pre = adv.take(ai + 1);
    assert(pre.drop_last() =~= adv.take(ai));
    assert(pre.last() == adv[ai]);
    assert(pre[ai] == adv[ai]);
    assert(explicit_model(pre, s, si, ai) == explicit_model(adv, s, si, ai));
}

/// Considering one more configured spec appends exactly its mappings.
proof fn lemma_explicit_models_snoc(adv: Seq<RemoteRef>, specs: Seq<RefSpec>, si: int)
    requires
        0 <= si < specs.len(),
    ensures
        explicit_models(adv, specs.take(si + 1)) == explicit_models(adv, specs.take(si))
            + models_for_spec(adv, specs[si], si),
{
    let pre = specs.take(si + 1);
    assert(pre.drop_last() =~= specs.take(si));
    assert(pre.last() == specs[si]);
    assert(pre.len() - 1 == si);
}

/// Following one more advertised ref extends the tag mappings by at most one.
proof fn lemma_implicit_models_snoc(adv: Seq<RemoteRef>, ai: int)
    requires
        0 <= ai < adv.len(),
    ensures
        implicit_models(adv.take(ai + 1)) == implicit_models(adv.take(ai)) + (if source_matches(
            tag_pattern(),
            adv[ai].name@,
        ) {
            seq![implicit_model(adv, ai)]
        } else {
            Seq::<MappingModel>::empty()
        }),
{
    let pre = adv.take(ai + 1);
    assert(pre.drop_last() =~= adv.take(ai));
    assert(pre.last() == adv[ai]);
    assert(pre[ai] == adv[ai]);
    assert(implicit_model(pre, ai) == implicit_model(adv, ai));
}

/// Every mapping of one spec carries that spec's index and an advertised source.
proof fn lemma_models_for_spec_valid(adv: Seq<RemoteRef>, s: RefSpec, si: int)
    ensures
        forall|k: int|
            0 <= k < models_for_spec(adv, s, si).len() ==> {
                let m = #[trigger] models_for_spec(adv, s, si)[k];
                &&& m.spec_index == SpecIndex::ExplicitInRemote(si as usize)
                &&& (m.source matches Source::Advertised(ai) && (ai as int) < adv.len())
            },
    decreases adv.len(),
{
    if adv.len() > 0 {
        lemma_models_for_spec_valid(adv.drop_last(), s, si);
        let pre = models_for_spec(adv.drop_last(), s, si);
        let whole = models_for_spec(adv, s, si);
        assert forall|k: int| 0 <= k < whole.len() implies {
            let m = #[trigger] whole[k];
            &&& m.spec_index == SpecIndex::ExplicitInRemote(si as usize)
            &&& (m.source matches Source::Advertised(ai) && (ai as int) < adv.len())
        } by {
            if k < pre.len() {
                assert(whole[k] == pre[k]);
            } else {
                assert(whole[k] == explicit_model(adv, s, si, adv.len() - 1));
            }
        }
    }
}

/// Every explicit mapping points into the configured specs and the advertisement.
pub proof fn lemma_explicit_models_valid(adv: Seq<RemoteRef>, specs: Seq<RefSpec>)
    ensures
        forall|k: int|
            0 <= k < explicit_models(adv, specs).len() ==> explicit_valid(
                adv,
                specs,
                #[trigger] explicit_models(adv, specs)[k],
            ),
    decreases specs.len(),
{
    if specs.len() > 0 {
        lemma_explicit_models_valid(adv, specs.drop_last());
        lemma_models_for_spec_valid(adv, specs.last(), specs.len() - 1);
        let pre = explicit_models(adv, specs.drop_last());
        let suf = models_for_spec(adv, specs.last(), specs.len() - 1);
        let whole = explicit_models(adv, specs);
        assert(whole == pre + suf);
        assert forall|k: int| 0 <= k < whole.len() implies explicit_valid(
            adv,
            specs,
            #[trigger] whole[k],
        ) by {
            if k < pre.len() {
                assert(whole[k] == pre[k]);
                assert(explicit_valid(adv, specs.drop_last(), pre[k]));
            } else {
                assert(whole[k] == suf[k - pre.len()]);
            }
        }
    }
}

/// Every tag-following mapping points into the synthesized list (of one spec)
/// and the advertisement.
pub proof fn lemma_implicit_models_valid(adv: Seq<RemoteRef>)
    ensures
        forall|k: int|
            0 <= k < implicit_models(adv).len() ==> {
                let m = #[trigger] implicit_models(adv)[k];
                &&& m.spec_index == SpecIndex::Implicit(0)
                &&& (m.source matches Source::Advertised(ai) && (ai as int) < adv.len())
            },
    decreases adv.len(),
{
    if adv.len() > 0 {
        lemma_implicit_models_valid(adv.drop_last());
        let pre = implicit_models(adv.drop_last());
        let whole = implicit_models(adv);
        assert forall|k: int| 0 <= k < whole.len() implies {
            let m = #[trigger] whole[k];
            &&& m.spec_index == SpecIndex::Implicit(0)
            &&& (m.source matches Source::Advertised(ai) && (ai as int) < adv.len())
        } by {
            if k < pre.len() {
                assert(whole[k] == pre[k]);
            } else {
                assert(whole[k] == implicit_model(adv, adv.len() - 1));
            }
        }
    }
}

/// No mapping ever references a nonexistent rule: every index a mapping of the
/// matcher's outcome carries is a valid index into the configured refspecs, or
/// into the synthesized extra refspecs for implicit ones.
pub proof fn lemma_mapping_indices_valid(
    adv: Seq<RemoteRef>,
    specs: Seq<RefSpec>,
    policy: TagPolicy,
)
    ensures
        forall|k: int|
            0 <= k < expected_models(adv, specs, policy).len() ==> match (
            #[trigger] expected_models(adv, specs, policy)[k]).spec_index {
                SpecIndex::ExplicitInRemote(si) => (si as int) < specs.len(),
                SpecIndex::Implicit(ti) => policy is Follow && ti == 0,
            },
{
    lemma_explicit_models_valid(adv, specs);
    lemma_implicit_models_valid(adv);
    let ex = explicit_models(adv, specs);
    let all = expected_models(adv, specs, policy);
    assert forall|k: int| 0 <= k < all.len() implies match (#[trigger] all[k]).spec_index {
        SpecIndex::ExplicitInRemote(si) => (si as int) < specs.len(),
        SpecIndex::Implicit(ti) => policy is Follow && ti == 0,
    } by {
        if k < ex.len() {
            assert(all[k] == ex[k]);
            assert(explicit_valid(adv, specs, ex[k]));
        } else {
            assert(policy is Follow);
            assert(all[k] == implicit_models(adv)[k - ex.len()]);
        }
    }
}


/// Matching is a pure function of the advertisement, the configured specs and
/// the tag policy: any two outcomes that satisfy the matcher's contract for
/// the same inputs carry identical mappings, in order and content, so
/// repeating the call against an unchanged advertisement changes nothing.
pub proof fn lemma_matcher_idempotent(
    adv: Seq<RemoteRef>,
    specs: Seq<RefSpec>,
    policy: TagPolicy,
    first: Seq<MappingModel>,
    second: Seq<MappingModel>,
)
    requires
        first == expected_models(adv, specs, policy),
        second == expected_models(adv, specs, policy),
    ensures
        first == second,
{
}

/// Build the `refs/tags/*` pattern.
fn tag_pattern_vec() -> (r: Vec<u8>)
    ensures
        r@ == tag_pattern(),
{
    let mut v: Vec<u8> = Vec::new();
    v.push(114);
    v.push(101);
    v.push(102);
    v.push(115);
    v.push(47);
    v.push(116);
    v.push(97);
    v.push(103);
    v.push(115);
    v.push(47);
    v.push(42);
    proof {
        assert(v@ =~= tag_pattern());
    }
    v
}

/// Expand the configured refspecs, and the tag-following rule when asked for,
/// against the remote's advertisement.
///
/// Succeeds if and only if every configured spec is well-formed and no two
/// non-force specs contest one local ref; the outcome is then exactly
/// `expected_models`: each spec's matches in advertisement order, specs in
/// configured order, tag follows last.
#[verifier::loop_isolation(false)]
pub fn match_specs(
    advertised: &Vec<RemoteRef>,
    explicit_specs: &Vec<RefSpec>,
    tag_policy: TagPolicy,
) -> (r: Result<MatchOutcome, MatchError>)
    ensures
        r is Ok <==> all_well_formed(explicit_specs@) && !has_ambiguity(
            advertised@,
            explicit_specs@,
        ),
        match r {
            Ok(out) => {
                &&& mapping_models(out.mappings@) == expected_models(
                    advertised@,
                    explicit_specs@,
                    tag_policy,
                )
                &&& (tag_policy is Follow ==> out.extra_refspecs@.len() == 1 && (
                out.extra_refspecs@[0].source@ == tag_pattern()) && (
                out.extra_refspecs@[0].destination matches Some(d) && d@ == tag_pattern()) && (
                out.extra_refspecs@[0].force == false))
                &&& (tag_policy is Skip ==> out.extra_refspecs@.len() == 0)
            },
            Err(e) => match e {
                MatchError::InvalidRefspecPattern { spec_index } => {
                    &&& (spec_index as int) < explicit_specs@.len()
                    &&& !spec_well_formed(explicit_specs@[spec_index as int])
                    &&& forall|k: int|
                        0 <= k < spec_index ==> spec_well_formed(#[trigger] explicit_specs@[k])
                },
                MatchError::AmbiguousDestination { ref_name } => {
                    &&& all_well_formed(explicit_specs@)
                    &&& has_ambiguity(advertised@, explicit_specs@)
                    &&& exists|i: int, j: int|
                        conflicting_pair(
                            advertised@,
                            explicit_specs@,
                            explicit_models(advertised@, explicit_specs@),
                            i,
                            j,
                        ) && explicit_models(advertised@, explicit_specs@)[i].local == Some(
                            ref_name@,
                        )
                },
            },
        },
{
    let ghost adv = advertised@;
    let ghost specs = explicit_specs@;
    // Validate every configured spec before matching anything.
    let mut si: usize = 0;
    while si < explicit_specs.len()
        invariant
            si <= specs.len(),
            forall|k: int| 0 <= k < si ==> spec_well_formed(#[trigger] specs[k]),
        decreases specs.len() - si,
    {
        let s = &explicit_specs[si];
        let src_star = match crate::refspec::scan_star_of(&s.source) {
            Some(found) => found,
            None => {
                return Err(MatchError::InvalidRefspecPattern { spec_index: si });
            },
        };
        match &s.destination {
            Some(d) => {
                let dst_star = match crate::refspec::scan_star_of(d) {
                    Some(found) => found,
                    None => {
                        return Err(MatchError::InvalidRefspecPattern { spec_index: si });
                    },
                };
                if src_star != dst_star {
                    proof {
                        assert(!spec_well_formed(specs[si as int]));
                    }
                    return Err(MatchError::InvalidRefspecPattern { spec_index: si });
                }
            },
            None => {},
        }
        proof {
            assert(spec_well_formed(specs[si as int]));
        }
        si += 1;
    }
    proof {
        assert(specs.take(specs.len() as int) == specs);
    }
    // Expand every configured spec in order, each in advertisement order.
    let mut mappings: Vec<Mapping> = Vec::new();
    let mut si: usize = 0;
    while si < explicit_specs.len()
        invariant
            si <= specs.len(),
            all_well_formed(specs),
            mapping_models(mappings@) == explicit_models(adv, specs.take(si as int)),
        decreases specs.len() - si,
    {
        let s = &explicit_specs[si];
        let mut ai: usize = 0;
        while ai < advertised.len()
            invariant
                ai <= adv.len(),
                si < specs.len(),
                all_well_formed(specs),
                s == specs[si as int],
                mapping_models(mappings@) == explicit_models(adv, specs.take(si as int))
                    + models_for_spec(adv.take(ai as int), specs[si as int], si as int),
            decreases adv.len() - ai,
        {
            let ghost before = mappings@;
            if matches_source(&s.source, &advertised[ai].name) {
                let local: Option<Vec<u8>> = match &s.destination {
                    Some(d) => Some(apply_destination(&s.source, d, &advertised[ai].name)),
                    None => None,
                };
                let m = Mapping {
                    source: Source::Advertised(ai),
                    local,
                    spec_index: SpecIndex::ExplicitInRemote(si),
                };
                proof {
                    assert(m@ == explicit_model(adv, specs[si as int], si as int, ai as int));
                }
                mappings.push(m);
                proof {
                    lemma_models_push(before, m);
                }
            }
            proof {
                lemma_models_for_spec_snoc(adv, specs[si as int], si as int, ai as int);
                if !source_matches(specs[si as int].source@, adv[ai as int].name@) {
                    assert(models_for_spec(adv.take(ai as int), specs[si as int], si as int)
                        + Seq::<MappingModel>::empty() =~= models_for_spec(
                        adv.take(ai as int),
                        specs[si as int],
                        si as int,
                    ));
                }
            }
            ai += 1;
        }
        proof {
            assert(adv.take(adv.len() as int) == adv);
            lemma_explicit_models_snoc(adv, specs, si as int);
        }
        si += 1;
    }
    proof {
        assert(specs.take(specs.len() as int) == specs);
    }
    let ghost ems = explicit_models(adv, specs);
    proof {
        lemma_explicit_models_valid(adv, specs);
    }
    // Reject two non-force rules contesting one local ref.
    let mut x: usize = 0;
    while x < mappings.len()
        invariant
            x <= mappings@.len(),
            mapping_models(mappings@) == ems,
            all_well_formed(specs),
            forall|p: int, q: int| 0 <= q < p < x ==> !conflicting_pair(adv, specs, ems, p, q),
        decreases mappings@.len() - x,
    {
        let mut y: usize = 0;
        while y < x
            invariant
                y <= x < mappings@.len(),
                mapping_models(mappings@) == ems,
                all_well_formed(specs),
                forall|p: int, q: int| 0 <= q < p < x ==> !conflicting_pair(adv, specs, ems, p, q),
                forall|q: int| 0 <= q < y ==> !conflicting_pair(adv, specs, ems, x as int, q),
            decreases x - y,
        {
            proof {
                assert(ems[x as int] == mappings@[x as int]@);
                assert(ems[y as int] == mappings@[y as int]@);
                assert(explicit_valid(adv, specs, ems[x as int]));
                assert(explicit_valid(adv, specs, ems[y as int]));
            }
            let conflict: bool = match (&mappings[x].local, &mappings[y].local) {
                (Some(lx), Some(ly)) => {
                    if bytes_eq(lx, ly) {
                        let fx = match mappings[x].spec_index {
                            SpecIndex::ExplicitInRemote(sx) => explicit_specs[sx].force,
                            SpecIndex::Implicit(_) => false,
                        };
                        let fy = match mappings[y].spec_index {
                            SpecIndex::ExplicitInRemote(sy) => explicit_specs[sy].force,
                            SpecIndex::Implicit(_) => false,
                        };
                        if !fx && !fy {
                            let tx = match mappings[x].source {
                                Source::Advertised(ax) => &advertised[ax].target,
                                Source::Detached(_) => {
                                    proof {
                                        assert(false);
                                    }
                                    &advertised[0].target
                                },
                            };
                            let ty = match mappings[y].source {
                                Source::Advertised(ay) => &advertised[ay].target,
                                Source::Detached(_) => {
                                    proof {
                                        assert(false);
                                    }
                                    &advertised[0].target
                                },
                            };
                            !target_eq(tx, ty)
                        } else {
                            false
                        }
                    } else {
                        false
                    }
                },
                _ => false,
            };
            proof {
                assert(conflict == conflicting_pair(adv, specs, ems, x as int, y as int));
            }
            if conflict {
                let name = match &mappings[x].local {
                    Some(l) => bytes_copy(l),
                    None => {
                        proof {
                            assert(false);
                        }
                        Vec::new()
                    },
                };
                proof {
                    assert(conflicting_pair(adv, specs, ems, x as int, y as int));
                    assert(has_ambiguity(adv, specs));
                    assert(ems[x as int].local == Some(name@));
                }
                return Err(MatchError::AmbiguousDestination { ref_name: name });
            }
            y += 1;
        }
        x += 1;
    }
    proof {
        assert forall|i: int, j: int| !conflicting_pair(adv, specs, ems, i, j) by {
            if conflicting_pair(adv, specs, ems, i, j) {
                if i > j {
                    assert(!conflicting_pair(adv, specs, ems, i, j));
                } else if j > i {
                    assert(!conflicting_pair(adv, specs, ems, j, i));
                    assert(conflicting_pair(adv, specs, ems, j, i));
                }
            }
        }
        assert(!has_ambiguity(adv, specs));
    }
    // Follow advertised tags under the synthesized spec.
    let mut extra: Vec<RefSpec> = Vec::new();
    match tag_policy {
        TagPolicy::Skip => {
            proof {
                assert(mapping_models(mappings@) =~= expected_models(adv, specs, tag_policy));
            }
        },
        TagPolicy::Follow => {
            let tag_src = tag_pattern_vec();
            proof {
                lemma_tag_pattern_wf();
            }
            let mut ai: usize = 0;
            while ai < advertised.len()
                invariant
                    ai <= adv.len(),
                    tag_src@ == tag_pattern(),
                    mapping_models(mappings@) == explicit_models(adv, specs) + implicit_models(
                        adv.take(ai as int),
                    ),
                decreases adv.len() - ai,
            {
                let ghost before = mappings@;
                if matches_source(&tag_src, &advertised[ai].name) {
                    let m = Mapping {
                        source: Source::Advertised(ai),
                        local: Some(bytes_copy(&advertised[ai].name)),
                        spec_index: SpecIndex::Implicit(0),
                    };
                    proof {
                        assert(m@ == implicit_model(adv, ai as int));
                    }
                    mappings.push(m);
                    proof {
                        lemma_models_push(before, m);
                    }
                }
                proof {
                    lemma_implicit_models_snoc(adv, ai as int);
                    if !source_matches(tag_pattern(), adv[ai as int].name@) {
                        assert(implicit_models(adv.take(ai as int))
                            + Seq::<MappingModel>::empty() =~= implicit_models(
                            adv.take(ai as int),
                        ));
                    }
                }
                ai += 1;
            }
            proof {
                assert(adv.take(adv.len() as int) == adv);
            }
            let tag_dst = tag_pattern_vec();
            extra.push(RefSpec { source: tag_src, destination: Some(tag_dst), force: false });
        },
    }
    Ok(MatchOutcome { mappings, extra_refspecs: extra })
}

} // verus!
