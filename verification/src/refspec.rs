//! Refspecs and the matching of their source patterns against a remote's
//! advertised references.
//!
//! A pattern is a byte string with at most one `*`; the `*` stands for any
//! (possibly empty) run of bytes, and the matched run is carried over into the
//! destination pattern's own `*`.

use vstd::prelude::*;

use crate::bytes::{bytes_copy, bytes_eq};

verus! {

/// What an advertised or local reference points at.
#[derive(Clone, PartialEq, Eq, Debug)]
pub enum Target {
    /// A direct object id.
    Id(u64),
    /// The name of another reference, e.g. what `HEAD` points at.
    Symbolic(Vec<u8>),
}

/// The mathematical value of a `Target`.
pub enum TargetModel {
    /// A direct object id.
    Id(u64),
    /// The name of another reference.
    Symbolic(Seq<u8>),
}

impl View for Target {
    type V = TargetModel;

    open spec fn view(&self) -> TargetModel {
        match self {
            Target::Id(id) => TargetModel::Id(*id),
            Target::Symbolic(name) => TargetModel::Symbolic(name@),
        }
    }
}

/// Decide equality of two targets.
pub fn target_eq(a: &Target, b: &Target) -> (r: bool)
    ensures
        r == (a@ == b@),
{
    match (a, b) {
        (Target::Id(x), Target::Id(y)) => x == y,
        (Target::Symbolic(x), Target::Symbolic(y)) => bytes_eq(x, y),
        _ => false,
    }
}

/// One reference as the remote advertised it; immutable for the session.
#[derive(Clone, PartialEq, Eq, Debug)]
pub struct RemoteRef {
    /// The full name of the reference, e.g. `refs/heads/main`.
    pub name: Vec<u8>,
    /// What the reference points at.
    pub target: Target,
    /// For an annotated tag, the id of the commit the tag object ultimately
    /// points at, when the remote advertised a peeled form.
    pub peeled: Option<u64>,
}

/// A fetch refspec: which remote refs map to which local refs.
#[derive(Clone, PartialEq, Eq, Debug)]
pub struct RefSpec {
    /// The pattern matched against advertised ref names.
    pub source: Vec<u8>,
    /// The pattern the local ref name is derived from; `None` fetches without
    /// storing a local ref.
    pub destination: Option<Vec<u8>>,
    /// Update the local ref even when the change is not a fast-forward.
    pub force: bool,
}

/// The rule a mapping was produced by: a configured refspec, or one synthesized
/// for tag following.
#[derive(Copy, Clone, PartialEq, Eq, Structural, Debug)]
pub enum SpecIndex {
    /// Index into the configured refspecs.
    ExplicitInRemote(usize),
    /// Index into the synthesized extra refspecs.
    Implicit(usize),
}

/// Where a mapping's remote side comes from.
#[derive(Copy, Clone, PartialEq, Eq, Structural, Debug)]
pub enum Source {
    /// Index into the advertised refs of this round.
    Advertised(usize),
    /// An object id known locally by peeled lookup although the remote's
    /// advertisement of this round omitted the ref.
    Detached(u64),
}

/// One remote ref resolved to the local ref it should update.
#[derive(Clone, PartialEq, Eq, Debug)]
pub struct Mapping {
    /// The remote side of the mapping.
    pub source: Source,
    /// The full name of the local ref to update, if one is to be stored.
    pub local: Option<Vec<u8>>,
    /// The rule this mapping was produced by.
    pub spec_index: SpecIndex,
}

/// The mathematical value of a `Mapping`.
pub struct MappingModel {
    /// The remote side of the mapping.
    pub source: Source,
    /// The name of the local ref to update, if one is to be stored.
    pub local: Option<Seq<u8>>,
    /// The rule this mapping was produced by.
    pub spec_index: SpecIndex,
}

impl View for Mapping {
    type V = MappingModel;

    open spec fn view(&self) -> MappingModel {
        MappingModel {
            source: self.source,
            local: match self.local {
                Some(l) => Some(l@),
                None => None,
            },
            spec_index: self.spec_index,
        }
    }
}

/// The mathematical values of a list of mappings.
pub open spec fn mapping_models(ms: Seq<Mapping>) -> Seq<MappingModel> {
    ms.map_values(|m: Mapping| m@)
}

/// The `*` wildcard byte.
pub open spec fn star() -> u8 {
    42u8
}

/// `s` has the wildcard at position `i`.
pub open spec fn star_at(s: Seq<u8>, i: int) -> bool {
    0 <= i < s.len() && s[i] == star()
}

/// `s` holds at most one wildcard.
pub open spec fn at_most_one_star(s: Seq<u8>) -> bool {
    forall|i: int, j: int| star_at(s, i) && star_at(s, j) ==> i == j
}

/// `s` holds a wildcard.
pub open spec fn has_star(s: Seq<u8>) -> bool {
    exists|i: int| star_at(s, i)
}

/// The position of the wildcard of `s`; meaningful when `has_star(s)`.
pub open spec fn star_idx(s: Seq<u8>) -> int {
    choose|i: int| star_at(s, i)
}

/// With at most one wildcard, a wildcard found at `i` is the wildcard.
pub proof fn lemma_star_unique(s: Seq<u8>, i: int)
    requires
        at_most_one_star(s),
        star_at(s, i),
    ensures
        has_star(s),
        star_idx(s) == i,
{
    assert(has_star(s));
    assert(star_at(s, star_idx(s)));
}

/// A pattern with at most one wildcard matches a name: an exact pattern matches
/// only itself, and a wildcard pattern matches any name that carries the
/// pattern's bytes before and after the wildcard.
pub open spec fn source_matches(pat: Seq<u8>, name: Seq<u8>) -> bool {
    if has_star(pat) {
        let i = star_idx(pat);
        &&& name.len() >= pat.len() - 1
        &&& name.take(i) == pat.take(i)
        &&& name.skip(name.len() - (pat.len() - 1 - i)) == pat.skip(i + 1)
    } else {
        name == pat
    }
}

/// The local name a match of `src` against `name` writes, under destination
/// pattern `dst`: the destination with its wildcard replaced by the run of
/// bytes the source wildcard matched.
pub open spec fn mapped_destination(src: Seq<u8>, dst: Seq<u8>, name: Seq<u8>) -> Seq<u8> {
    if has_star(src) && has_star(dst) {
        let i = star_idx(src);
        let j = star_idx(dst);
        dst.take(j) + name.subrange(i, name.len() - (src.len() - 1 - i)) + dst.skip(j + 1)
    } else {
        dst
    }
}

/// A refspec is well-formed when each side holds at most one wildcard and the
/// destination holds one exactly when the source does.
pub open spec fn spec_well_formed(s: RefSpec) -> bool {
    &&& at_most_one_star(s.source@)
    &&& (s.destination matches Some(d) ==> at_most_one_star(d@) && (has_star(s.source@)
        <==> has_star(d@)))
}

/// Find the first wildcard of `p`.
fn find_star(p: &Vec<u8>) -> (r: Option<usize>)
    ensures
        match r {
            Some(i) => star_at(p@, i as int) && (forall|k: int| 0 <= k < i ==> p@[k] != star()),
            None => !has_star(p@),
        },
{
    let mut k: usize = 0;
    while k < p.len()
        invariant
            k <= p@.len(),
            forall|t: int| 0 <= t < k ==> p@[t] != star(),
        decreases p@.len() - k,
    {
        if p[k] == 42u8 {
            return Some(k);
        }
        k += 1;
    }
    proof {
        assert(forall|i: int| !star_at(p@, i));
    }
    None
}

/// Scan `p` for wildcards: `Some(None)` for none, `Some(Some(i))` for exactly
/// one, at `i`, and `None` for more than one.
#[verifier::loop_isolation(false)]
fn scan_star(p: &Vec<u8>) -> (r: Option<Option<usize>>)
    ensures
        match r {
            Some(pos) => match pos {
                Some(i) => at_most_one_star(p@) && star_at(p@, i as int),
                None => !has_star(p@) && at_most_one_star(p@),
            },
            None => !at_most_one_star(p@),
        },
{
    match find_star(p) {
        None => Some(None),
        Some(i) => {
            let n = p.len();
            proof {
                assert(star_at(p@, i as int));
                assert(i < n);
            }
            let mut k: usize = i + 1;
            while k < p.len()
                invariant
                    i < k,
                    k <= p@.len(),
                    star_at(p@, i as int),
                    forall|t: int| 0 <= t < k && t != i ==> p@[t] != star(),
                decreases p@.len() - k,
            {
                if p[k] == 42u8 {
                    proof {
                        assert(star_at(p@, i as int) && star_at(p@, k as int) && i != k);
                    }
                    return None;
                }
                k += 1;
            }
            Some(Some(i))
        },
    }
}

/// Classify `p`: `Some(true)` for exactly one wildcard, `Some(false)` for
/// none, `None` for more than one.
pub(crate) fn scan_star_of(p: &Vec<u8>) -> (r: Option<bool>)
    ensures
        match r {
            Some(h) => at_most_one_star(p@) && h == has_star(p@),
            None => !at_most_one_star(p@),
        },
{
    match scan_star(p) {
        Some(Some(i)) => {
            proof {
                assert(star_at(p@, i as int));
            }
            Some(true)
        },
        Some(None) => Some(false),
        None => None,
    }
}

/// Decide whether well-formed pattern `pat` matches `name`.
#[verifier::loop_isolation(false)]
pub(crate) fn matches_source(pat: &Vec<u8>, name: &Vec<u8>) -> (r: bool)
    requires
        at_most_one_star(pat@),
    ensures
        r == source_matches(pat@, name@),
{
    match find_star(pat) {
        None => bytes_eq(name, pat),
        Some(i) => {
            proof {
                lemma_star_unique(pat@, i as int);
                assert(star_at(pat@, i as int));
            }
            let suffix_len = pat.len() - 1 - i;
            if name.len() < pat.len() - 1 {
                return false;
            }
            let mut k: usize = 0;
            while k < i
                invariant
                    k <= i,
                    i < pat@.len(),
                    i <= name@.len(),
                    at_most_one_star(pat@),
                    star_idx(pat@) == i,
                    has_star(pat@),
                    forall|t: int| 0 <= t < k ==> name@[t] == pat@[t],
                decreases i - k,
            {
                if name[k] != pat[k] {
                    proof {
                        assert(name@.take(i as int)[k as int] != pat@.take(i as int)[k as int]);
                    }
                    return false;
                }
                k += 1;
            }
            proof {
                assert(name@.take(i as int) =~= pat@.take(i as int));
            }
            let base = name.len() - suffix_len;
            let mut t: usize = 0;
            while t < suffix_len
                invariant
                    t <= suffix_len,
                    suffix_len == pat@.len() - 1 - i,
                    i < pat@.len(),
                    base == name@.len() - suffix_len,
                    suffix_len <= name@.len(),
                    name@.len() + 1 >= pat@.len(),
                    at_most_one_star(pat@),
                    star_idx(pat@) == i,
                    has_star(pat@),
                    name@.take(i as int) == pat@.take(i as int),
                    forall|u: int| 0 <= u < t ==> #[trigger] name@[base + u] == pat@[i + 1 + u],
                decreases suffix_len - t,
            {
                if name[base + t] != pat[i + 1 + t] {
                    proof {
                        assert(name@.skip(base as int)[t as int] != pat@.skip(i + 1)[t as int]);
                    }
                    return false;
                }
                t += 1;
            }
            proof {
                assert forall|u: int| 0 <= u < suffix_len implies name@.skip(base as int)[u]
                    == pat@.skip(i + 1)[u] by {
                    assert(name@.skip(base as int)[u] == name@[base + u]);
                    assert(pat@.skip(i + 1)[u] == pat@[i + 1 + u]);
                }
                assert(name@.skip(base as int) =~= pat@.skip(i + 1));
            }
            true
        },
    }
}

/// Build the local name a match of `src` against `name` writes under `dst`.
#[verifier::loop_isolation(false)]
pub(crate) fn apply_destination(src: &Vec<u8>, dst: &Vec<u8>, name: &Vec<u8>) -> (r: Vec<u8>)
    requires
        at_most_one_star(src@),
        at_most_one_star(dst@),
        has_star(src@) <==> has_star(dst@),
        source_matches(src@, name@),
    ensures
        r@ == mapped_destination(src@, dst@, name@),
{
    match find_star(src) {
        None => {
            proof {
                assert(!has_star(src@) && !has_star(dst@));
            }
            bytes_copy(dst)
        },
        Some(i) => {
            proof {
                lemma_star_unique(src@, i as int);
            }
            let j = match find_star(dst) {
                Some(j) => {
                    proof {
                        lemma_star_unique(dst@, j as int);
                        assert(star_at(dst@, j as int));
                    }
                    j
                },
                None => {
                    proof {
                        assert(false);
                    }
                    0
                },
            };
            proof {
                assert(name@.len() >= src@.len() - 1);
            }
            let mut r: Vec<u8> = Vec::new();
            let mut k: usize = 0;
            while k < j
                invariant
                    k <= j,
                    j < dst@.len(),
                    r@ =~= dst@.take(k as int),
                decreases j - k,
            {
                r.push(dst[k]);
                k += 1;
            }
            let middle_end = name.len() - (src.len() - 1 - i);
            proof {
                assert(i <= middle_end <= name@.len());
            }
            let mut m: usize = i;
            while m < middle_end
                invariant
                    i <= m <= middle_end,
                    middle_end <= name@.len(),
                    j < dst@.len(),
                    r@ =~= dst@.take(j as int) + name@.subrange(i as int, m as int),
                decreases middle_end - m,
            {
                r.push(name[m]);
                m += 1;
            }
            let dn = dst.len();
            proof {
                assert(j < dn);
            }
            let mut t: usize = j + 1;
            while t < dst.len()
                invariant
                    j < t <= dst@.len(),
                    i <= middle_end <= name@.len(),
                    r@ =~= dst@.take(j as int) + name@.subrange(i as int, middle_end as int)
                        + dst@.subrange(j + 1, t as int),
                decreases dst@.len() - t,
            {
                r.push(dst[t]);
                t += 1;
            }
            proof {
                assert(r@ =~= dst@.take(j as int) + name@.subrange(i as int, middle_end as int)
                    + dst@.subrange(j + 1, dst@.len() as int));
            }
            proof {
                assert(dst@.subrange(j + 1, dst@.len() as int) =~= dst@.skip(j + 1));
                assert(r@ =~= mapped_destination(src@, dst@, name@));
            }
            r
        },
    }
}

} // verus!
