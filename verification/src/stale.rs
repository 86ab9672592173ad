use vstd::prelude::*;
use vstd::string::StringExecFns;
use crate::BuildError;
use crate::hex::{dec_of, to_dec};

verus! {

/// Every declared source could be examined.
pub open spec fn sources_ok(sources: Seq<Option<u64>>) -> bool {
    forall|j: int| 0 <= j < sources.len() ==> sources[j] is Some
}

/// The index of the first declared source that could not be examined.
pub open spec fn first_unreadable(sources: Seq<Option<u64>>) -> int
    decreases sources.len(),
{
    if sources.len() == 0 {
        0
    } else if sources.first() is None {
        0
    } else {
        1 + first_unreadable(sources.drop_first())
    }
}

pub proof fn lemma_first_unreadable(sources: Seq<Option<u64>>, j: int)
    requires
        0 <= j < sources.len(),
        sources[j] is None,
        forall|k: int| 0 <= k < j ==> sources[k] is Some,
    ensures
        first_unreadable(sources) == j,
    decreases j,
{
    if j > 0 {
        lemma_first_unreadable(sources.drop_first(), j - 1);
    }
}

/// The target is stale: it does not exist, or some source is strictly newer.
/// Timestamps are modification times, as ticks of any fixed resolution.
pub open spec fn stale_spec(target: Option<u64>, sources: Seq<Option<u64>>) -> bool {
    match target {
        None => true,
        Some(t) => exists|j: int|
            0 <= j < sources.len() && #[trigger] sources[j] is Some && sources[j]->0 > t,
    }
}

/// The staleness oracle. `target` is the output's modification time, `None`
/// when its metadata cannot be read; each entry of `sources` is a declared
/// source's modification time, `None` when that source cannot be read.
///
/// A missing target is stale outright, before any source is examined. An
/// unreadable source under an existing target is a fatal filesystem error,
/// never silently "not stale".
pub fn is_dirty(target: Option<u64>, sources: &Vec<Option<u64>>) -> (r: Result<
    bool,
    BuildError,
>)
    ensures
        target is None ==> r is Ok && r->Ok_0 == true,
        target is Some && !sources_ok(sources@) ==> r is Err && r->Err_0 is Filesystem
            && 0 <= first_unreadable(sources@) < sources@.len()
            && r->Err_0->Filesystem_0@ == "cannot stat declared source "@ + dec_of(
            first_unreadable(sources@) as nat,
        ),
        target is Some && sources_ok(sources@) ==> r is Ok && r->Ok_0 == stale_spec(
            target,
            sources@,
        ),
{
    let t = match target {
        None => {
            return Ok(true);
        },
        Some(t) => t,
    };
    let mut j: usize = 0;
    while j < sources.len()
        invariant
            j <= sources.len(),
            target == Some(t),
            forall|k: int| 0 <= k < j ==> sources@[k] is Some,
        decreases sources.len() - j,
    {
        if sources[j].is_none() {
            proof {
                lemma_first_unreadable(sources@, j as int);
            }
            let mut msg = String::from_str("cannot stat declared source ");
            let idx = to_dec(j as u64);
            msg.append(idx.as_str());
            return Err(BuildError::Filesystem(msg));
        }
        j = j + 1;
    }
    let mut j: usize = 0;
    while j < sources.len()
        invariant
            j <= sources.len(),
            target == Some(t),
            sources_ok(sources@),
            forall|k: int| 0 <= k < j ==> !(#[trigger] sources@[k] is Some && sources@[k]->0 > t),
        decreases sources.len() - j,
    {
        match sources[j] {
            Some(m) => {
                if m > t {
                    return Ok(true);
                }
            },
            None => {},
        }
        j = j + 1;
    }
    Ok(false)
}

/// The staleness correctness law: a missing output is always stale; an
/// output newer than (or as new as) every source is not stale; and making
/// any one source newer than the output makes the unit stale.
pub proof fn lemma_staleness_correctness(
    t: u64,
    sources: Seq<Option<u64>>,
    j: int,
    m: u64,
)
    requires
        0 <= j < sources.len(),
    ensures
        stale_spec(None, sources),
        (forall|k: int|
            0 <= k < sources.len() ==> #[trigger] sources[k] is Some && sources[k]->0 <= t)
            ==> !stale_spec(Some(t), sources),
        m > t ==> stale_spec(Some(t), sources.update(j, Some(m))),
{
    if m > t {
        let u = sources.update(j, Some(m));
        assert(u[j] is Some && u[j]->0 > t);
    }
}

} // verus!
