//! What a sequence of updates leads to.

use std::sync::Arc;

use vstd::prelude::*;

use crate::pending_blocks::PendingBlocks;
use crate::state::{announced, settled, stored, StateUpdate};

verus! {

/// An update that was processed.
pub struct Processed {
    pub update: StateUpdate,
    /// What it came to, where it did not fail.
    pub result: Option<Option<Arc<PendingBlocks>>>,
}

/// Whether a processed update has made a new state be announced: it is a flashblock, and a pending
/// state came of it.
pub open spec fn is_announced(processed: Processed) -> bool {
    &&& processed.update is Flashblock
    &&& processed.result is Some
    &&& processed.result.unwrap() is Some
}

/// The pending state once updates were processed in turn.
pub open spec fn pending_after(
    pending: Option<Arc<PendingBlocks>>,
    history: Seq<Processed>,
) -> Option<Arc<PendingBlocks>>
    decreases history.len(),
{
    if history.len() == 0 {
        pending
    } else {
        stored(pending_after(pending, history.drop_last()), history.last().result)
    }
}

/// What was announced while updates were processed in turn. Nothing is announced for a canonical
/// block.
pub open spec fn announcements(history: Seq<Processed>) -> Seq<Arc<PendingBlocks>>
    decreases history.len(),
{
    if history.len() == 0 {
        Seq::empty()
    } else {
        let earlier = announcements(history.drop_last());
        match history.last().update {
            StateUpdate::Canonical(_) => earlier,
            StateUpdate::Flashblock(_) => match announced(history.last().result) {
                Some(pending) => earlier.push(pending),
                None => earlier,
            },
        }
    }
}

/// Whether a result can come of an update: what settles it, where something does, and else a built
/// state or a failure.
pub open spec fn can_come_of(
    pending: Option<Arc<PendingBlocks>>,
    processed: Processed,
) -> bool {
    match settled(pending, processed.update) {
        Some(new) => processed.result == Some(new),
        None => processed.result is Some ==> processed.result.unwrap() is Some,
    }
}

/// Whether each of the results can come of its update, processed in turn.
pub open spec fn can_happen(pending: Option<Arc<PendingBlocks>>, history: Seq<Processed>) -> bool
    decreases history.len(),
{
    history.len() == 0 || {
        &&& can_happen(pending, history.drop_last())
        &&& can_come_of(pending_after(pending, history.drop_last()), history.last())
    }
}

/// Whether an update can be the start of something pending: the first flashblock of a block.
pub open spec fn starts_a_block(update: StateUpdate) -> bool {
    match update {
        StateUpdate::Canonical(_) => false,
        StateUpdate::Flashblock(flashblock) => flashblock.index == 0,
    }
}

/// The pending state is what the last successful update came to, also where that is nothing.
pub proof fn law_last_success_is_pending(
    pending: Option<Arc<PendingBlocks>>,
    history: Seq<Processed>,
    k: int,
)
    requires
        0 <= k < history.len(),
        history[k].result is Some,
        forall|j: int| k < j < history.len() ==> (#[trigger] history[j]).result is None,
    ensures
        pending_after(pending, history) == history[k].result.unwrap(),
    decreases history.len(),
{
    if k < history.len() - 1 {
        let fewer = history.drop_last();
        assert forall|j: int| k < j < fewer.len() implies (#[trigger] fewer[j]).result is None by {
            assert(fewer[j] == history[j]);
        }
        assert(history[history.len() - 1].result is None);
        law_last_success_is_pending(pending, fewer, k);
    }
}

/// Updates that fail leave what was pending.
pub proof fn law_failures_change_nothing(
    pending: Option<Arc<PendingBlocks>>,
    history: Seq<Processed>,
)
    requires
        forall|j: int| 0 <= j < history.len() ==> (#[trigger] history[j]).result is None,
    ensures
        pending_after(pending, history) == pending,
        announcements(history) == Seq::<Arc<PendingBlocks>>::empty(),
    decreases history.len(),
{
    if history.len() > 0 {
        let fewer = history.drop_last();
        assert forall|j: int| 0 <= j < fewer.len() implies (#[trigger] fewer[j]).result is None by {
            assert(fewer[j] == history[j]);
        }
        assert(history[history.len() - 1].result is None);
        law_failures_change_nothing(pending, fewer);
    }
}

/// What is announced is, in order, each pending state that came of a flashblock, and nothing else.
pub proof fn law_built_flashblocks_are_announced(history: Seq<Processed>)
    ensures
        announcements(history) == history.filter(
            |processed: Processed| is_announced(processed),
        ).map_values(|processed: Processed| processed.result.unwrap().unwrap()),
    decreases history.len(),
{
    let selects = |processed: Processed| is_announced(processed);
    let state = |processed: Processed| processed.result.unwrap().unwrap();
    reveal(Seq::filter);
    if history.len() == 0 {
        assert(history.filter(selects).map_values(state) =~= Seq::empty());
    } else {
        let fewer = history.drop_last();
        law_built_flashblocks_are_announced(fewer);
        assert(fewer.filter(selects).push(history.last()).map_values(state) =~= fewer.filter(
            selects,
        ).map_values(state).push(state(history.last())));
    }
}

/// Where nothing is pending, nothing becomes pending and nothing is announced until the first
/// flashblock of a block comes, whatever canonical blocks and other flashblocks come before it.
pub proof fn law_cleared_stays_cleared(history: Seq<Processed>)
    requires
        can_happen(None, history),
        forall|j: int|
            0 <= j < history.len() ==> !starts_a_block((#[trigger] history[j]).update),
    ensures
        pending_after(None, history) is None,
        announcements(history) == Seq::<Arc<PendingBlocks>>::empty(),
    decreases history.len(),
{
    if history.len() > 0 {
        let fewer = history.drop_last();
        assert forall|j: int| 0 <= j < fewer.len() implies !starts_a_block(
            (#[trigger] fewer[j]).update,
        ) by {
            assert(fewer[j] == history[j]);
        }
        assert(!starts_a_block(history[history.len() - 1].update));
        law_cleared_stays_cleared(fewer);
    }
}

} // verus!
