use vstd::prelude::*;
use vstd::string::StringExecFns;

use crate::error::{lit, Error};
use crate::lock::{opt_str_eq, FlakeLock, Locked, LockedView, Original, OriginalView};

verus! {

/// The input names of one sync: a source name and a destination name,
/// collapsed to one symmetric name when both are equal. The collapse is a
/// convenience identity, not a semantically distinct case.
#[derive(Debug, PartialEq, Eq)]
pub enum SyncInputNames {
    SourceAndDestination { source: String, destination: String },
    Same { input_name: String },
}

/// The mathematical value of a name pairing.
pub enum SyncNamesView {
    SourceAndDestination { source: Seq<char>, destination: Seq<char> },
    Same { input_name: Seq<char> },
}

impl View for SyncInputNames {
    type V = SyncNamesView;

    open spec fn view(&self) -> SyncNamesView {
        match self {
            SyncInputNames::SourceAndDestination { source, destination } => SyncNamesView::SourceAndDestination {
                source: source@,
                destination: destination@,
            },
            SyncInputNames::Same { input_name } => SyncNamesView::Same { input_name: input_name@ },
        }
    }
}

impl SyncNamesView {
    /// The name looked up in the source flake.
    pub open spec fn source_spec(&self) -> Seq<char> {
        match self {
            SyncNamesView::SourceAndDestination { source, .. } => *source,
            SyncNamesView::Same { input_name } => *input_name,
        }
    }

    /// The name looked up in the destination flake.
    pub open spec fn destination_spec(&self) -> Seq<char> {
        match self {
            SyncNamesView::SourceAndDestination { destination, .. } => *destination,
            SyncNamesView::Same { input_name } => *input_name,
        }
    }
}

impl Clone for SyncInputNames {
    fn clone(&self) -> (r: Self)
        ensures
            r@ == self@,
    {
        match self {
            SyncInputNames::SourceAndDestination { source, destination } => SyncInputNames::SourceAndDestination {
                source: source.clone(),
                destination: destination.clone(),
            },
            SyncInputNames::Same { input_name } => SyncInputNames::Same {
                input_name: input_name.clone(),
            },
        }
    }
}

impl SyncInputNames {
    /// Pairs a source name with a destination name, collapsing equal names
    /// to the symmetric form.
    pub fn source_and_destination(source: String, destination: String) -> (r: Self)
        ensures
            source@ == destination@ ==> r@ == (SyncNamesView::Same { input_name: source@ }),
            source@ != destination@ ==> r@ == (SyncNamesView::SourceAndDestination {
                source: source@,
                destination: destination@,
            }),
    {
        if source == destination {
            Self::Same { input_name: source }
        } else {
            Self::SourceAndDestination { source, destination }
        }
    }

    /// The symmetric pairing: one name on both sides.
    pub fn same(input_name: String) -> (r: Self)
        ensures
            r@ == (SyncNamesView::Same { input_name: input_name@ }),
    {
        Self::Same { input_name }
    }

    /// The name looked up in the source flake.
    pub fn source(&self) -> (r: &String)
        ensures
            r@ == self@.source_spec(),
    {
        match self {
            Self::SourceAndDestination { source, .. } => source,
            Self::Same { input_name } => input_name,
        }
    }

    /// The name looked up in the destination flake.
    pub fn destination(&self) -> (r: &String)
        ensures
            r@ == self@.destination_spec(),
    {
        match self {
            Self::SourceAndDestination { destination, .. } => destination,
            Self::Same { input_name } => input_name,
        }
    }
}

/// What a sync has to touch: only the resolved lock, or the declaration
/// text as well. Either way the override URL to request is carried along.
#[derive(Debug, PartialEq, Eq)]
pub enum SyncStrategy {
    LockOnly { lock_url: String, input_names: SyncInputNames },
    FlakeNixAndLock { lock_url: String, input_names: SyncInputNames },
}

/// The mathematical value of a strategy.
pub enum StrategyView {
    LockOnly { lock_url: Seq<char>, input_names: SyncNamesView },
    FlakeNixAndLock { lock_url: Seq<char>, input_names: SyncNamesView },
}

impl View for SyncStrategy {
    type V = StrategyView;

    open spec fn view(&self) -> StrategyView {
        match self {
            SyncStrategy::LockOnly { lock_url, input_names } => StrategyView::LockOnly {
                lock_url: lock_url@,
                input_names: input_names@,
            },
            SyncStrategy::FlakeNixAndLock { lock_url, input_names } => StrategyView::FlakeNixAndLock {
                lock_url: lock_url@,
                input_names: input_names@,
            },
        }
    }
}

impl Clone for SyncStrategy {
    fn clone(&self) -> (r: Self)
        ensures
            r@ == self@,
    {
        match self {
            SyncStrategy::LockOnly { lock_url, input_names } => SyncStrategy::LockOnly {
                lock_url: lock_url.clone(),
                input_names: input_names.clone(),
            },
            SyncStrategy::FlakeNixAndLock { lock_url, input_names } => SyncStrategy::FlakeNixAndLock {
                lock_url: lock_url.clone(),
                input_names: input_names.clone(),
            },
        }
    }
}

impl SyncStrategy {
    /// A strategy that only regenerates the resolved lock.
    pub fn lock_only(lock_url: String, input_names: &SyncInputNames) -> (r: Self)
        ensures
            r@ == (StrategyView::LockOnly { lock_url: lock_url@, input_names: input_names@ }),
    {
        Self::LockOnly { lock_url, input_names: input_names.clone() }
    }

    /// A strategy that rewrites the declaration text and regenerates the
    /// resolved lock.
    pub fn flake_nix_and_lock(lock_url: String, input_names: &SyncInputNames) -> (r: Self)
        ensures
            r@ == (StrategyView::FlakeNixAndLock {
                lock_url: lock_url@,
                input_names: input_names@,
            }),
    {
        Self::FlakeNixAndLock { lock_url, input_names: input_names.clone() }
    }
}

/// Whether an override URL can be synthesized from this declared source and
/// this pin: everything but a non-indirect source pinned to a GitLab
/// repository.
pub open spec fn override_url_ok(o: OriginalView, l: LockedView) -> bool {
    o is Indirect || !(l is GitLab)
}

/// The override URL handed to the external relock operation:
/// `<id>/<rev>` for an indirect source, else by the pin's kind,
/// `git+<url>?[ref=<ref>&]rev=<rev>` or `github:<owner>/<repo>/<rev>`.
pub open spec fn override_url_spec(o: OriginalView, l: LockedView) -> Seq<char> {
    match o {
        OriginalView::Indirect { id, .. } => id + "/"@ + l.rev_spec(),
        _ => match l {
            LockedView::Git { rev, ref_name, url, .. } => "git+"@ + url + "?"@ + (match ref_name {
                Some(r) => "ref="@ + r + "&"@,
                None => Seq::<char>::empty(),
            }) + "rev="@ + rev,
            LockedView::GitHub { rev, owner, repo, .. } => "github:"@ + owner + "/"@ + repo + "/"@
                + rev,
            LockedView::GitLab { .. } => Seq::<char>::empty(),
        },
    }
}

/// Synthesizes the override URL, or refuses the one unsupported pin kind.
pub fn override_url(original: &Original, locked: &Locked) -> (r: Result<String, Error>)
    ensures
        match r {
            Ok(u) => override_url_ok(original@, locked@) && u@ == override_url_spec(
                original@,
                locked@,
            ),
            Err(e) => !override_url_ok(original@, locked@) && (e matches Error::UnsupportedSourceKind {
                kind,
            } && kind@ == "gitlab"@),
        },
{
    match original {
        Original::Indirect { id, .. } => {
            let mut s = id.clone();
            s.append("/");
            s.append(locked.rev().as_str());
            proof {
                assert(s@ =~= override_url_spec(original@, locked@));
            }
            Ok(s)
        }
        _ => {
            match locked {
                Locked::Git { rev, ref_name, url, .. } => {
                    let mut s = lit("git+");
                    s.append(url.as_str());
                    s.append("?");
                    match ref_name {
                        Some(r) => {
                            s.append("ref=");
                            s.append(r.as_str());
                            s.append("&");
                        }
                        None => {}
                    }
                    s.append("rev=");
                    s.append(rev.as_str());
                    proof {
                        assert(s@ =~= override_url_spec(original@, locked@));
                    }
                    Ok(s)
                }
                Locked::GitHub { rev, owner, repo, .. } => {
                    let mut s = lit("github:");
                    s.append(owner.as_str());
                    s.append("/");
                    s.append(repo.as_str());
                    s.append("/");
                    s.append(rev.as_str());
                    proof {
                        assert(s@ =~= override_url_spec(original@, locked@));
                    }
                    Ok(s)
                }
                Locked::GitLab { .. } => Err(
                    Error::UnsupportedSourceKind { kind: lit("gitlab") },
                ),
            }
        }
    }
}

/// Whether two declared sources carry the same human-authored pin: the
/// (ref, rev) pair compared as a pair.
pub open spec fn pins_equal(a: OriginalView, b: OriginalView) -> bool {
    a.ref_spec() == b.ref_spec() && a.rev_spec() == b.rev_spec()
}

/// The whole strategy decision, as a relation between its inputs and its
/// result: the override URL must be synthesizable, the base identities must
/// match, and the pin pair alone picks between the two strategies.
pub open spec fn strategy_result_ok(
    src_o: OriginalView,
    src_l: LockedView,
    dst_o: OriginalView,
    names: SyncNamesView,
    r: Result<SyncStrategy, Error>,
) -> bool {
    match r {
        Ok(s) => {
            &&& override_url_ok(src_o, src_l)
            &&& src_o.base_spec() == dst_o.base_spec()
            &&& if pins_equal(src_o, dst_o) {
                s@ == (StrategyView::LockOnly {
                    lock_url: override_url_spec(src_o, src_l),
                    input_names: names,
                })
            } else {
                s@ == (StrategyView::FlakeNixAndLock {
                    lock_url: override_url_spec(src_o, src_l),
                    input_names: names,
                })
            }
        },
        Err(e) => match e {
            Error::UnsupportedSourceKind { kind } => kind@ == "gitlab"@ && !override_url_ok(
                src_o,
                src_l,
            ),
            Error::IncompatibleSources => override_url_ok(src_o, src_l) && src_o.base_spec()
                != dst_o.base_spec(),
            _ => false,
        },
    }
}

/// Decides the strategy for one pair of descriptors: synthesize the
/// override URL, compare base identities, then compare the (ref, rev) pin
/// pair.
pub fn strategy_for(
    src_original: &Original,
    src_locked: &Locked,
    dst_original: &Original,
    names: &SyncInputNames,
) -> (r: Result<SyncStrategy, Error>)
    ensures
        strategy_result_ok(src_original@, src_locked@, dst_original@, names@, r),
{
    let url = match override_url(src_original, src_locked) {
        Ok(u) => u,
        Err(e) => {
            return Err(e);
        }
    };
    let src_base = src_original.base();
    let dst_base = dst_original.base();
    if src_base == dst_base {
        let refs_equal = opt_str_eq(&src_original.ref_name(), &dst_original.ref_name());
        let revs_equal = opt_str_eq(&src_original.rev(), &dst_original.rev());
        if refs_equal && revs_equal {
            Ok(SyncStrategy::lock_only(url, names))
        } else {
            Ok(SyncStrategy::flake_nix_and_lock(url, names))
        }
    } else {
        Err(Error::IncompatibleSources)
    }
}


/// The whole per-input decision over two graphs, as a relation: either
/// side's descriptors may be missing, and that side is named in the error;
/// with both present, the pair decision relation holds.
pub open spec fn sync_strategy_result_ok(
    source: FlakeLock,
    destination: FlakeLock,
    input: SyncInputNames,
    r: Result<SyncStrategy, Error>,
) -> bool {
    let so = source.input_node_view(input@.source_spec());
    let dn = destination.input_node_view(input@.destination_spec());
    match (so, dn) {
        (Some(sn), Some(dnode)) => strategy_result_ok(
            sn.original,
            sn.locked,
            dnode.original,
            input@,
            r,
        ),
        (None, _) => r matches Err(e) && (e matches Error::MissingOriginalOrLocked { side, name }
            && side is Source && name@ == input@.source_spec()),
        (Some(_), None) => r matches Err(e) && (e matches Error::MissingOriginalOrLocked {
            side,
            name,
        } && side is Destination && name@ == input@.destination_spec()),
    }
}

/// The strategy engine over two whole resolution graphs.
pub struct SyncServiceImpl {}

impl SyncServiceImpl {
    /// Looks both sides of the pairing up through the graphs' direct
    /// inputs and decides the strategy; a missing descriptor on either side
    /// names that side in the error.
    pub fn sync_strategy(
        &self,
        source: &FlakeLock,
        destination: &FlakeLock,
        input: &SyncInputNames,
    ) -> (r: Result<SyncStrategy, Error>)
        requires
            source.wf(),
            destination.wf(),
        ensures
            sync_strategy_result_ok(*source, *destination, *input, r),
    {
        let src_original = match source.original_of(input.source().as_str()) {
            Some(o) => o,
            None => {
                return Err(
                    Error::MissingOriginalOrLocked {
                        side: crate::error::Side::Source,
                        name: input.source().clone(),
                    },
                );
            }
        };
        let src_locked = match source.locked_of(input.source().as_str()) {
            Some(l) => l,
            None => {
                return Err(
                    Error::MissingOriginalOrLocked {
                        side: crate::error::Side::Source,
                        name: input.source().clone(),
                    },
                );
            }
        };
        let dst_original = match destination.original_of(input.destination().as_str()) {
            Some(o) => o,
            None => {
                return Err(
                    Error::MissingOriginalOrLocked {
                        side: crate::error::Side::Destination,
                        name: input.destination().clone(),
                    },
                );
            }
        };
        strategy_for(&src_original, &src_locked, &dst_original, input)
    }
}

/// For all pairs with equal base identity and equal (ref, rev) pin, the
/// decided strategy keeps the declaration text and only refreshes the lock.
pub proof fn lemma_equal_pin_gives_lock_only(
    src_o: OriginalView,
    src_l: LockedView,
    dst_o: OriginalView,
    names: SyncNamesView,
    r: Result<SyncStrategy, Error>,
)
    requires
        strategy_result_ok(src_o, src_l, dst_o, names, r),
        override_url_ok(src_o, src_l),
        src_o.base_spec() == dst_o.base_spec(),
        pins_equal(src_o, dst_o),
    ensures
        r matches Ok(s) && s@ == (StrategyView::LockOnly {
            lock_url: override_url_spec(src_o, src_l),
            input_names: names,
        }),
{
}

/// For all pairs with equal base identity and a differing (ref, rev) pin,
/// the decided strategy rewrites the declaration text as well.
pub proof fn lemma_differing_pin_rewrites_declaration(
    src_o: OriginalView,
    src_l: LockedView,
    dst_o: OriginalView,
    names: SyncNamesView,
    r: Result<SyncStrategy, Error>,
)
    requires
        strategy_result_ok(src_o, src_l, dst_o, names, r),
        override_url_ok(src_o, src_l),
        src_o.base_spec() == dst_o.base_spec(),
        !pins_equal(src_o, dst_o),
    ensures
        r matches Ok(s) && s@ == (StrategyView::FlakeNixAndLock {
            lock_url: override_url_spec(src_o, src_l),
            input_names: names,
        }),
{
}

/// For all pairs with differing base identity the decision refuses to sync,
/// whatever the (ref, rev) pins say. The one exception is a source whose
/// pin cannot be rendered at all, which is refused as unsupported first.
pub proof fn lemma_differing_base_is_incompatible(
    src_o: OriginalView,
    src_l: LockedView,
    dst_o: OriginalView,
    names: SyncNamesView,
    r: Result<SyncStrategy, Error>,
)
    requires
        strategy_result_ok(src_o, src_l, dst_o, names, r),
        override_url_ok(src_o, src_l),
        src_o.base_spec() != dst_o.base_spec(),
    ensures
        r matches Err(e) && e == Error::IncompatibleSources,
{
    match r {
        Ok(_) => {
            assert(false);
        }
        Err(e) => {
            match e {
                Error::UnsupportedSourceKind { .. } => {
                    assert(false);
                }
                Error::IncompatibleSources => {}
                _ => {
                    assert(false);
                }
            }
        }
    }
}

/// Override-URL synthesis is pure: the URL is a function of the two
/// descriptor values alone, so identical inputs always yield the identical
/// string.
pub proof fn lemma_override_url_pure(
    o1: OriginalView,
    l1: LockedView,
    o2: OriginalView,
    l2: LockedView,
)
    requires
        o1 == o2,
        l1 == l2,
    ensures
        override_url_spec(o1, l1) == override_url_spec(o2, l2),
{
}

/// The synthesized URL always takes the documented form: `<id>/<rev>` for
/// an indirect source, and for a git pin `git+<url>?[ref=<ref>&]rev=<rev>`
/// with the `ref=` part present exactly when the pin records a reference.
pub proof fn lemma_override_url_forms(o: OriginalView, l: LockedView)
    ensures
        (o matches OriginalView::Indirect { id, .. } ==> override_url_spec(o, l) == id + "/"@
            + l.rev_spec()),
        (l matches LockedView::Git { rev, ref_name: Some(r), url, .. } ==> (!(o is Indirect)
            ==> override_url_spec(o, l) == "git+"@ + url + "?"@ + "ref="@ + r + "&"@ + "rev="@
            + rev)),
        (l matches LockedView::Git { rev, ref_name: None, url, .. } ==> (!(o is Indirect)
            ==> override_url_spec(o, l) == "git+"@ + url + "?"@ + Seq::<char>::empty() + "rev="@
            + rev)),
{
}

} // verus!
