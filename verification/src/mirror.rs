use vstd::prelude::*;

use crate::error::LoadError;

verus! {

/// What the mirror resolver does next while ensuring one raw file. The caller
/// performs the named side effect (a fetch or an extraction) and reports its
/// outcome back through `after_fetch` / `after_extract`; the steps here make
/// every decision, so the surrounding loop holds no policy of its own.
#[derive(Clone, Copy, Debug, PartialEq, Eq, Structural)]
pub enum MirrorStep {
    /// Fetch the archive from the mirror with this index.
    Fetch(usize),
    /// A fetch succeeded: extract the downloaded archive into the raw file.
    Extract,
    /// The raw file is in place; nothing further is performed.
    Done,
    /// Every mirror failed; the raw file was neither created nor modified.
    Exhausted,
}

/// The first step of resolving one raw file.
pub open spec fn spec_start_resolve(raw_exists: bool, mirror_count: usize) -> MirrorStep {
    if raw_exists {
        MirrorStep::Done
    } else if mirror_count == 0 {
        MirrorStep::Exhausted
    } else {
        MirrorStep::Fetch(0)
    }
}

/// The step after the fetch from mirror `mirror` reported `fetch_ok`.
pub open spec fn spec_after_fetch(mirror: usize, fetch_ok: bool, mirror_count: usize) -> MirrorStep {
    if fetch_ok {
        MirrorStep::Extract
    } else if mirror + 1 < mirror_count {
        MirrorStep::Fetch((mirror + 1) as usize)
    } else {
        MirrorStep::Exhausted
    }
}

/// The terminal step the resolver reaches from mirror index `i` on, where
/// `outcomes[m]` says whether a fetch from mirror `m` would succeed.
pub open spec fn spec_resolve_from(outcomes: Seq<bool>, i: int) -> MirrorStep
    decreases outcomes.len() - i,
{
    if i < 0 || i >= outcomes.len() {
        MirrorStep::Exhausted
    } else if outcomes[i] {
        MirrorStep::Extract
    } else {
        spec_resolve_from(outcomes, i + 1)
    }
}

/// The terminal step of resolving one raw file: `Done` without any fetch when
/// the raw file already exists, `Extract` at the first mirror that succeeds,
/// and `Exhausted` when none does.
pub open spec fn spec_resolve(raw_exists: bool, outcomes: Seq<bool>) -> MirrorStep {
    if raw_exists {
        MirrorStep::Done
    } else {
        spec_resolve_from(outcomes, 0)
    }
}

/// How many fetches the resolver performs from mirror index `i` on.
pub open spec fn spec_fetch_count_from(outcomes: Seq<bool>, i: int) -> int
    decreases outcomes.len() - i,
{
    if i < 0 || i >= outcomes.len() {
        0
    } else if outcomes[i] {
        1
    } else {
        1 + spec_fetch_count_from(outcomes, i + 1)
    }
}

/// How many fetches resolving one raw file performs in all.
pub open spec fn spec_fetch_count(raw_exists: bool, outcomes: Seq<bool>) -> int {
    if raw_exists {
        0
    } else {
        spec_fetch_count_from(outcomes, 0)
    }
}

/// Begins resolving one raw file: an existing raw file is answered with
/// `Done` at once, before any mirror is consulted; otherwise the first
/// mirror is tried, or the mirrors are already exhausted if there are none.
pub fn start_resolve(raw_exists: bool, mirror_count: usize) -> (s: MirrorStep)
    ensures
        s == spec_start_resolve(raw_exists, mirror_count),
{
    if raw_exists {
        MirrorStep::Done
    } else if mirror_count == 0 {
        MirrorStep::Exhausted
    } else {
        MirrorStep::Fetch(0)
    }
}

/// Advances the resolver once the fetch from mirror `mirror` has finished:
/// success short-circuits to extraction, failure falls over to the next
/// mirror, and a failure of the last mirror exhausts the list.
pub fn after_fetch(mirror: usize, fetch_ok: bool, mirror_count: usize) -> (s: MirrorStep)
    ensures
        s == spec_after_fetch(mirror, fetch_ok, mirror_count),
{
    if fetch_ok {
        MirrorStep::Extract
    } else if mirror < mirror_count && mirror_count - mirror > 1 {
        MirrorStep::Fetch(mirror + 1)
    } else {
        MirrorStep::Exhausted
    }
}

/// Finishes resolving one raw file once extraction has run: an extraction
/// failure is a local I/O fault and is surfaced at once, with no further
/// mirror retried.
pub fn after_extract(extract_ok: bool) -> (r: Result<(), LoadError>)
    ensures
        extract_ok <==> r is Ok,
        !extract_ok ==> r == Err::<(), LoadError>(LoadError::Io),
{
    if extract_ok {
        Ok(())
    } else {
        Err(LoadError::Io)
    }
}

/// Each resolver step stays on the path that `spec_resolve_from` describes:
/// a successful fetch ends mirror iteration at `Extract`, a failed one moves
/// to the next mirror without changing the terminal step, and a failure of
/// the last mirror is exhaustion.
pub proof fn lemma_after_fetch_follows_resolve(outcomes: Seq<bool>, i: usize, mirror_count: usize)
    requires
        outcomes.len() == mirror_count,
        i < mirror_count,
    ensures
        spec_after_fetch(i, outcomes[i as int], mirror_count) matches MirrorStep::Fetch(j) ==> j
            == i + 1 && spec_resolve_from(outcomes, i as int) == spec_resolve_from(
            outcomes,
            j as int,
        ),
        spec_after_fetch(i, outcomes[i as int], mirror_count) == MirrorStep::Extract
            ==> spec_resolve_from(outcomes, i as int) == MirrorStep::Extract,
        spec_after_fetch(i, outcomes[i as int], mirror_count) == MirrorStep::Exhausted
            ==> spec_resolve_from(outcomes, i as int) == MirrorStep::Exhausted,
{
    if !outcomes[i as int] && i as int + 1 >= outcomes.len() {
        assert(spec_resolve_from(outcomes, i as int + 1) == MirrorStep::Exhausted);
    }
}

/// Idempotence of ensuring a raw file: when the raw file already exists, the
/// resolver finishes at once and performs no fetch at all, so a second call
/// after a successful first one touches no network.
pub proof fn lemma_existing_raw_file_fetches_nothing(outcomes: Seq<bool>)
    ensures
        spec_resolve(true, outcomes) == MirrorStep::Done,
        spec_fetch_count(true, outcomes) == 0,
{
}

/// Mirror fallback: when the first mirror fails and the second succeeds, the
/// resolver extracts exactly what the second mirror delivered, after exactly
/// two fetches — no mirror beyond the second is attempted.
pub proof fn lemma_second_mirror_succeeds(outcomes: Seq<bool>)
    requires
        outcomes.len() >= 2,
        !outcomes[0],
        outcomes[1],
    ensures
        spec_resolve(false, outcomes) == MirrorStep::Extract,
        spec_fetch_count(false, outcomes) == 2,
{
    assert(spec_resolve_from(outcomes, 1) == MirrorStep::Extract);
    assert(spec_fetch_count_from(outcomes, 1) == 1);
}

/// Mirror exhaustion: when every mirror fails, the resolver tries each
/// exactly once and ends exhausted; it never reaches the extraction step, so
/// the raw file is neither created nor modified.
pub proof fn lemma_all_mirrors_fail(outcomes: Seq<bool>)
    requires
        forall|m: int| 0 <= m < outcomes.len() ==> !outcomes[m],
    ensures
        spec_resolve(false, outcomes) == MirrorStep::Exhausted,
        spec_fetch_count(false, outcomes) == outcomes.len(),
{
    lemma_all_mirrors_fail_from(outcomes, 0);
}

proof fn lemma_all_mirrors_fail_from(outcomes: Seq<bool>, i: int)
    requires
        0 <= i <= outcomes.len(),
        forall|m: int| i <= m < outcomes.len() ==> !outcomes[m],
    ensures
        spec_resolve_from(outcomes, i) == MirrorStep::Exhausted,
        spec_fetch_count_from(outcomes, i) == outcomes.len() - i,
    decreases outcomes.len() - i,
{
    if i < outcomes.len() {
        lemma_all_mirrors_fail_from(outcomes, i + 1);
    }
}

} // verus!
