use vstd::prelude::*;

use crate::error::Error;
use crate::flake_nix::{sync_spec, EditSpec};
use crate::lock::FlakeLock;
use crate::strategy::{sync_strategy_result_ok, SyncInputNames, SyncServiceImpl, SyncStrategy};

verus! {

/// Plans a batch sync: decides the strategy of every named input before any
/// external side effect runs, failing fast on the first input whose
/// strategy cannot be computed.
pub fn sync_strategies(
    source: &FlakeLock,
    destination: &FlakeLock,
    inputs: &Vec<SyncInputNames>,
) -> (r: Result<Vec<SyncStrategy>, Error>)
    requires
        source.wf(),
        destination.wf(),
    ensures
        match r {
            Ok(v) => v@.len() == inputs@.len() && forall|i: int|
                0 <= i < v@.len() ==> sync_strategy_result_ok(
                    *source,
                    *destination,
                    inputs@[i],
                    Ok(#[trigger] v@[i]),
                ),
            Err(e) => exists|i: int|
                0 <= i < inputs@.len() && sync_strategy_result_ok(
                    *source,
                    *destination,
                    #[trigger] inputs@[i],
                    Err(e),
                ),
        },
{
    let service = SyncServiceImpl {};
    let mut out: Vec<SyncStrategy> = Vec::new();
    let mut i: usize = 0;
    while i < inputs.len()
        invariant
            source.wf(),
            destination.wf(),
            i <= inputs@.len(),
            out@.len() == i,
            forall|j: int|
                0 <= j < i ==> sync_strategy_result_ok(
                    *source,
                    *destination,
                    inputs@[j],
                    Ok(#[trigger] out@[j]),
                ),
        decreases inputs@.len() - i,
    {
        match service.sync_strategy(source, destination, &inputs[i]) {
            Ok(s) => {
                out.push(s);
            }
            Err(e) => {
                return Err(e);
            }
        }
        i = i + 1;
    }
    Ok(out)
}

/// The batch fold over the destination's definition text: every strategy in
/// input order, a declaration-rewriting strategy syncing its own input's
/// URL from the source text, a lock-only strategy leaving the text as it
/// stands; the first failing rewrite ends the fold with its failure.
pub open spec fn apply_fold(
    src: Seq<char>,
    dst: Seq<char>,
    strategies: Seq<SyncStrategy>,
) -> EditSpec
    decreases strategies.len(),
{
    if strategies.len() == 0 {
        EditSpec::Edited(dst)
    } else {
        match strategies[0] {
            SyncStrategy::LockOnly { .. } => apply_fold(src, dst, strategies.drop_first()),
            SyncStrategy::FlakeNixAndLock { input_names, .. } => match sync_spec(
                src,
                dst,
                input_names@,
            ) {
                EditSpec::Edited(t) => apply_fold(src, t, strategies.drop_first()),
                other => other,
            },
        }
    }
}

/// Applies the planned strategies to the destination's definition text:
/// exactly the fold of the per-strategy declaration rewrites in input
/// order. A plan of lock-only strategies returns the text unchanged.
pub fn apply_strategies(
    source_flake_nix: &str,
    destination_flake_nix: &str,
    strategies: &Vec<SyncStrategy>,
) -> (r: Result<String, Error>)
    ensures
        match r {
            Ok(out) => apply_fold(source_flake_nix@, destination_flake_nix@, strategies@)
                == EditSpec::Edited(out@),
            Err(e) => match e {
                Error::PathNotFound => apply_fold(
                    source_flake_nix@,
                    destination_flake_nix@,
                    strategies@,
                ) is PathNotFound,
                Error::NotAStringLiteral => apply_fold(
                    source_flake_nix@,
                    destination_flake_nix@,
                    strategies@,
                ) is NotAStringLiteral,
                Error::NixParserError(_) => apply_fold(
                    source_flake_nix@,
                    destination_flake_nix@,
                    strategies@,
                ) is ParseError,
                _ => false,
            },
        },
{
    let mut current: String = crate::error::lit(destination_flake_nix);
    proof {
        assert(strategies@.skip(0) =~= strategies@);
    }
    let mut i: usize = 0;
    while i < strategies.len()
        invariant
            i <= strategies@.len(),
            apply_fold(source_flake_nix@, destination_flake_nix@, strategies@) == apply_fold(
                source_flake_nix@,
                current@,
                strategies@.skip(i as int),
            ),
        decreases strategies@.len() - i,
    {
        proof {
            assert(strategies@.skip(i as int)[0] == strategies@[i as int]);
            assert(strategies@.skip(i as int).drop_first() =~= strategies@.skip(i as int + 1));
        }
        match &strategies[i] {
            SyncStrategy::LockOnly { .. } => {}
            SyncStrategy::FlakeNixAndLock { input_names, .. } => {
                match crate::flake_nix::sync(source_flake_nix, current.as_str(), input_names) {
                    Ok(next) => {
                        current = next;
                    }
                    Err(e) => {
                        return Err(e);
                    }
                }
            }
        }
        i = i + 1;
    }
    proof {
        assert(strategies@.skip(strategies@.len() as int) =~= Seq::<SyncStrategy>::empty());
    }
    Ok(current)
}

} // verus!
