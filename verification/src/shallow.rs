//! Negotiation of the shallow-history boundary: the wire commands a shallow
//! request turns into, and the boundary that the remote's authoritative reply
//! leaves behind.
//!
//! The remote, not the client, decides the exact boundary commit ids: the
//! persisted boundary always equals exactly the set of commits the remote
//! declared shallow in the last accepted response, except after an undo, when
//! it is empty.

use vstd::prelude::*;

use crate::bytes::bytes_copy;

verus! {

/// A requested transition of the shallow boundary.
#[derive(Clone, PartialEq, Eq, Debug)]
pub enum ShallowRequest {
    /// Ask the remote for `n` generations from its tips.
    DepthAtRemote(u32),
    /// Ask for `n` additional generations from the current boundary.
    Deepen(u32),
    /// Request history back to a date.
    Since {
        /// The cutoff timestamp, in seconds.
        cutoff: u64,
    },
    /// Request history excluding ancestors of the named refs, optionally also
    /// bounded by a date.
    Exclude {
        /// The names of the advertised refs whose ancestors stay excluded.
        remote_refs: Vec<Vec<u8>>,
        /// An optional additional date bound.
        since_cutoff: Option<u64>,
    },
    /// Request full unshallowing.
    Undo,
}

/// A depth request must ask for at least one generation.
pub open spec fn request_well_formed(r: ShallowRequest) -> bool {
    match r {
        ShallowRequest::DepthAtRemote(n) => n > 0,
        ShallowRequest::Deepen(n) => n > 0,
        _ => true,
    }
}

/// The current shallow cut: the commits beyond which history is intentionally
/// absent. Empty means the repository is complete.
#[derive(Clone, PartialEq, Eq, Debug)]
pub struct ShallowBoundary {
    /// The boundary commit ids, in the order the remote declared them, without
    /// duplicates.
    pub commits: Vec<u64>,
}

impl ShallowBoundary {
    /// The boundary lists each commit once.
    pub open spec fn well_formed(self) -> bool {
        self.commits@.no_duplicates()
    }

    /// An empty boundary: the repository is complete.
    pub fn empty_boundary() -> (r: ShallowBoundary)
        ensures
            r.commits@ == Seq::<u64>::empty(),
            r.well_formed(),
    {
        ShallowBoundary { commits: Vec::new() }
    }
}

/// One deepen command of the wire exchange, emitted before the want/have
/// exchange completes.
#[derive(Clone, PartialEq, Eq, Debug)]
pub enum DeepenCommand {
    /// Absolute depth from the remote's tips.
    Depth(u32),
    /// Additional generations from the current boundary.
    Relative(u32),
    /// History back to a date.
    SinceDate(u64),
    /// Exclude ancestors of the named advertised ref.
    Not(Vec<u8>),
    /// Undo shallowness entirely.
    Unshallow,
}

/// The mathematical value of a `DeepenCommand`.
pub enum DeepenCommandModel {
    /// Absolute depth from the remote's tips.
    Depth(u32),
    /// Additional generations from the current boundary.
    Relative(u32),
    /// History back to a date.
    SinceDate(u64),
    /// Exclude ancestors of the named advertised ref.
    Not(Seq<u8>),
    /// Undo shallowness entirely.
    Unshallow,
}

impl View for DeepenCommand {
    type V = DeepenCommandModel;

    open spec fn view(&self) -> DeepenCommandModel {
        match self {
            DeepenCommand::Depth(n) => DeepenCommandModel::Depth(*n),
            DeepenCommand::Relative(n) => DeepenCommandModel::Relative(*n),
            DeepenCommand::SinceDate(c) => DeepenCommandModel::SinceDate(*c),
            DeepenCommand::Not(name) => DeepenCommandModel::Not(name@),
            DeepenCommand::Unshallow => DeepenCommandModel::Unshallow,
        }
    }
}

/// A shallow negotiation failure.
#[derive(Clone, PartialEq, Eq, Structural, Debug)]
pub enum ShallowError {
    /// Policy forbids fetching from an already-shallow remote.
    RejectShallowRemote,
}

/// The wire commands a request turns into.
pub open spec fn spec_commands(r: ShallowRequest) -> Seq<DeepenCommandModel> {
    match r {
        ShallowRequest::DepthAtRemote(n) => seq![DeepenCommandModel::Depth(n)],
        ShallowRequest::Deepen(n) => seq![DeepenCommandModel::Relative(n)],
        ShallowRequest::Since { cutoff } => seq![DeepenCommandModel::SinceDate(cutoff)],
        ShallowRequest::Exclude { remote_refs, since_cutoff } => remote_refs@.map_values(
            |n: Vec<u8>| DeepenCommandModel::Not(n@),
        ) + match since_cutoff {
            Some(c) => seq![DeepenCommandModel::SinceDate(c)],
            None => Seq::empty(),
        },
        ShallowRequest::Undo => seq![DeepenCommandModel::Unshallow],
    }
}

/// Check that policy permits a shallow transition against this remote: fails
/// with `RejectShallowRemote`, before any network round-trip, exactly when the
/// remote is itself shallow, policy forbids fetching from such a remote, and a
/// non-trivial shallow transition was requested.
pub fn check_shallow_policy(
    remote_is_shallow: bool,
    reject_shallow_remote: bool,
    request: &Option<ShallowRequest>,
) -> (r: Result<(), ShallowError>)
    ensures
        r is Ok <==> !(remote_is_shallow && reject_shallow_remote && request is Some),
        r matches Err(e) ==> e == ShallowError::RejectShallowRemote,
{
    if remote_is_shallow && reject_shallow_remote && request.is_some() {
        Err(ShallowError::RejectShallowRemote)
    } else {
        Ok(())
    }
}

/// Build the deepen commands of the wire exchange for `request`: one command
/// per aspect of the request, exclusions in the order they were named.
#[verifier::loop_isolation(false)]
pub fn commands_for_request(request: &ShallowRequest) -> (r: Vec<DeepenCommand>)
    requires
        request_well_formed(*request),
    ensures
        r@.map_values(|c: DeepenCommand| c@) == spec_commands(*request),
{
    let mut out: Vec<DeepenCommand> = Vec::new();
    match request {
        ShallowRequest::DepthAtRemote(n) => {
            out.push(DeepenCommand::Depth(*n));
        },
        ShallowRequest::Deepen(n) => {
            out.push(DeepenCommand::Relative(*n));
        },
        ShallowRequest::Since { cutoff } => {
            out.push(DeepenCommand::SinceDate(*cutoff));
        },
        ShallowRequest::Exclude { remote_refs, since_cutoff } => {
            let mut k: usize = 0;
            while k < remote_refs.len()
                invariant
                    k <= remote_refs@.len(),
                    out@.map_values(|c: DeepenCommand| c@) =~= remote_refs@.take(
                        k as int,
                    ).map_values(|n: Vec<u8>| DeepenCommandModel::Not(n@)),
                decreases remote_refs@.len() - k,
            {
                let ghost prev = out@;
                let name_copy = bytes_copy(&remote_refs[k]);
                let cmd = DeepenCommand::Not(name_copy);
                proof {
                    assert(cmd@ == DeepenCommandModel::Not(remote_refs@[k as int]@));
                }
                out.push(cmd);
                proof {
                    assert(out@ == prev.push(cmd));
                    assert(out@.map_values(|c: DeepenCommand| c@) =~= prev.map_values(
                        |c: DeepenCommand| c@,
                    ).push(cmd@));
                    assert(remote_refs@.take(k + 1).map_values(
                        |n: Vec<u8>| DeepenCommandModel::Not(n@),
                    ) =~= remote_refs@.take(k as int).map_values(
                        |n: Vec<u8>| DeepenCommandModel::Not(n@),
                    ).push(DeepenCommandModel::Not(remote_refs@[k as int]@)));
                }
                k += 1;
            }
            proof {
                assert(remote_refs@.take(remote_refs@.len() as int) == remote_refs@);
            }
            match since_cutoff {
                Some(c) => {
                    out.push(DeepenCommand::SinceDate(*c));
                },
                None => {},
            }
        },
        ShallowRequest::Undo => {
            out.push(DeepenCommand::Unshallow);
        },
    }
    proof {
        assert(out@.map_values(|c: DeepenCommand| c@) =~= spec_commands(*request));
    }
    out
}

/// `s` with later repetitions of a commit dropped: the first occurrence wins.
pub open spec fn first_dedup(s: Seq<u64>) -> Seq<u64>
    decreases s.len(),
{
    if s.len() == 0 {
        Seq::empty()
    } else {
        let pre = first_dedup(s.drop_last());
        if s.drop_last().contains(s.last()) {
            pre
        } else {
            pre.push(s.last())
        }
    }
}

/// Deduplication keeps exactly the commits of `s`, each once.
pub proof fn lemma_first_dedup(s: Seq<u64>)
    ensures
        first_dedup(s).no_duplicates(),
        forall|c: u64| first_dedup(s).contains(c) <==> s.contains(c),
    decreases s.len(),
{
    if s.len() > 0 {
        let pre = first_dedup(s.drop_last());
        lemma_first_dedup(s.drop_last());
        assert forall|c: u64| s.contains(c) implies (s.drop_last().contains(c) || s.last()
            == c) by {
            let i = choose|i: int| 0 <= i < s.len() && s[i] == c;
            if i < s.len() - 1 {
                assert(s.drop_last()[i] == c);
            }
        }
        assert forall|c: u64| s.drop_last().contains(c) implies s.contains(c) by {
            let i = choose|i: int| 0 <= i < s.drop_last().len() && s.drop_last()[i] == c;
            assert(s[i] == c);
        }
        assert(s[s.len() - 1] == s.last());
        if !s.drop_last().contains(s.last()) {
            assert forall|c: u64| pre.push(s.last()).contains(c) implies s.contains(c) by {
                let i = choose|i: int|
                    0 <= i < pre.push(s.last()).len() && pre.push(s.last())[i] == c;
                if i < pre.len() {
                    assert(pre.contains(c));
                }
            }
            assert forall|c: u64| s.contains(c) implies pre.push(s.last()).contains(c) by {
                if s.drop_last().contains(c) {
                    assert(pre.contains(c));
                    let i = choose|i: int| 0 <= i < pre.len() && pre[i] == c;
                    assert(pre.push(s.last())[i] == c);
                } else {
                    assert(pre.push(s.last())[pre.len() as int] == s.last());
                }
            }
        }
    }
}

/// The boundary that accepting a reply leaves behind: the prior boundary when
/// nothing was requested, empty after an undo, and otherwise exactly the
/// commits the remote declared shallow, first occurrence first.
pub open spec fn spec_boundary(
    request: Option<ShallowRequest>,
    prior: Seq<u64>,
    reply_shallow: Seq<u64>,
) -> Seq<u64> {
    match request {
        None => prior,
        Some(ShallowRequest::Undo) => Seq::empty(),
        Some(_) => first_dedup(reply_shallow),
    }
}

/// Compute the boundary the accepted reply leaves behind.
///
/// The reply is authoritative: for any request but `Undo` the new boundary is
/// exactly the reply's shallow set; an empty reply means the repository became
/// fully unshallowed, and `Undo` empties the boundary regardless of the reply.
#[verifier::loop_isolation(false)]
pub fn negotiate_boundary(
    prior: &ShallowBoundary,
    request: &Option<ShallowRequest>,
    reply_shallow: &Vec<u64>,
) -> (out: ShallowBoundary)
    requires
        prior.well_formed(),
    ensures
        out.commits@ == spec_boundary(*request, prior.commits@, reply_shallow@),
        out.well_formed(),
        forall|c: u64|
            out.commits@.contains(c) <==> match request {
                None => prior.commits@.contains(c),
                Some(ShallowRequest::Undo) => false,
                Some(_) => reply_shallow@.contains(c),
            },
{
    match request {
        None => {
            let out = ShallowBoundary { commits: bytes_copy_u64(&prior.commits) };
            out
        },
        Some(ShallowRequest::Undo) => ShallowBoundary::empty_boundary(),
        Some(_) => {
            let mut commits: Vec<u64> = Vec::new();
            let mut k: usize = 0;
            while k < reply_shallow.len()
                invariant
                    k <= reply_shallow@.len(),
                    commits@ == first_dedup(reply_shallow@.take(k as int)),
                decreases reply_shallow@.len() - k,
            {
                let c = reply_shallow[k];
                let ghost pre = reply_shallow@.take(k as int);
                proof {
                    assert(reply_shallow@.take(k + 1).drop_last() =~= pre);
                    assert(reply_shallow@.take(k + 1).last() == reply_shallow@[k as int]);
                    lemma_first_dedup(pre);
                }
                if !contains_u64(&commits, c) {
                    commits.push(c);
                }
                k += 1;
            }
            proof {
                assert(reply_shallow@.take(reply_shallow@.len() as int) == reply_shallow@);
                lemma_first_dedup(reply_shallow@);
            }
            ShallowBoundary { commits }
        },
    }
}


/// The terminal state of one shallow negotiation.
pub enum ShallowOutcome {
    /// No transition was requested and the prior boundary stands untouched.
    Unchanged,
    /// The accepted reply established this boundary; an empty one means the
    /// repository became fully unshallowed.
    NewBoundary(ShallowBoundary),
}

/// Drive one shallow negotiation to its terminal state: `Unchanged` exactly
/// when nothing was requested, and otherwise the boundary the accepted reply
/// leaves behind.
pub fn negotiate_outcome(
    prior: &ShallowBoundary,
    request: &Option<ShallowRequest>,
    reply_shallow: &Vec<u64>,
) -> (out: ShallowOutcome)
    requires
        prior.well_formed(),
    ensures
        out is Unchanged <==> request is None,
        out matches ShallowOutcome::NewBoundary(b) ==> b.commits@ == spec_boundary(
            *request,
            prior.commits@,
            reply_shallow@,
        ) && b.well_formed(),
{
    match request {
        None => ShallowOutcome::Unchanged,
        Some(_) => ShallowOutcome::NewBoundary(negotiate_boundary(prior, request, reply_shallow)),
    }
}

/// Decide whether `v` holds `c`.
pub fn contains_u64(v: &Vec<u64>, c: u64) -> (r: bool)
    ensures
        r == v@.contains(c),
{
    let mut k: usize = 0;
    while k < v.len()
        invariant
            k <= v@.len(),
            forall|t: int| 0 <= t < k ==> v@[t] != c,
        decreases v@.len() - k,
    {
        if v[k] == c {
            return true;
        }
        k += 1;
    }
    false
}

/// Copy a list of commit ids.
pub(crate) fn bytes_copy_u64(v: &Vec<u64>) -> (r: Vec<u64>)
    ensures
        r@ == v@,
{
    let mut r: Vec<u64> = Vec::new();
    let mut k: usize = 0;
    while k < v.len()
        invariant
            k <= v@.len(),
            r@ =~= v@.take(k as int),
        decreases v@.len() - k,
    {
        r.push(v[k]);
        k += 1;
    }
    proof {
        assert(v@.take(v@.len() as int) =~= v@);
    }
    r
}

/// Requesting a depth and later undoing shallowness always leaves an empty
/// boundary, whatever boundary the depth request had established and whatever
/// the remote replies to the undo.
pub proof fn lemma_round_trip_undo(
    prior: Seq<u64>,
    depth: u32,
    first_reply: Seq<u64>,
    second_reply: Seq<u64>,
)
    ensures
        spec_boundary(
            Some(ShallowRequest::Undo),
            spec_boundary(Some(ShallowRequest::DepthAtRemote(depth)), prior, first_reply),
            second_reply,
        ) == Seq::<u64>::empty(),
{
}

/// Deepening after a depth request: the reply is authoritative, so when the
/// remote's deepen reply shares no commit with the established boundary, the
/// new boundary is disjoint from the old one.
pub proof fn lemma_round_trip_deepen_disjoint(
    prior: Seq<u64>,
    depth: u32,
    extra: u32,
    first_reply: Seq<u64>,
    second_reply: Seq<u64>,
)
    requires
        forall|c: u64| second_reply.contains(c) ==> !first_reply.contains(c),
    ensures
        forall|c: u64|
            spec_boundary(
                Some(ShallowRequest::Deepen(extra)),
                spec_boundary(Some(ShallowRequest::DepthAtRemote(depth)), prior, first_reply),
                second_reply,
            ).contains(c) ==> !spec_boundary(
                Some(ShallowRequest::DepthAtRemote(depth)),
                prior,
                first_reply,
            ).contains(c),
{
    lemma_first_dedup(first_reply);
    lemma_first_dedup(second_reply);
    let b1 = spec_boundary(
        Some(ShallowRequest::DepthAtRemote(depth)),
        prior,
        first_reply,
    );
    let b2 = spec_boundary(Some(ShallowRequest::Deepen(extra)), b1, second_reply);
    assert(b1 == first_dedup(first_reply));
    assert(b2 == first_dedup(second_reply));
    assert forall|c: u64| b2.contains(c) implies !b1.contains(c) by {
        assert(second_reply.contains(c));
    }
}

/// A date-bounded deepen whose cutoff predates the repository's first commit
/// makes the remote reply with an empty shallow set, and an empty reply always
/// yields an empty boundary: the repository is fully unshallowed.
pub proof fn lemma_since_empty_reply_unshallows(prior: Seq<u64>, cutoff: u64)
    ensures
        spec_boundary(
            Some(ShallowRequest::Since { cutoff }),
            prior,
            Seq::<u64>::empty(),
        ) == Seq::<u64>::empty(),
{
    lemma_first_dedup(Seq::<u64>::empty());
    assert(first_dedup(Seq::<u64>::empty()) =~= Seq::<u64>::empty());
}

} // verus!
