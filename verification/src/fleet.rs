//! All the slots of one download and their pool, taken together.
//!
//! The slots run side by side, and nothing orders what happens to one against
//! what happens to another. Here a download is a pool, its slots, and a
//! sequence of moves, each of which tells one slot of one event: every
//! interleaving is such a sequence. What is proved of all sequences holds
//! however the slots are scheduled.

use crate::download::{
    draws, paths_of, resolved_path, slot_advance, EventView, PhaseView, SlotView,
};
use crate::pool::PoolView;
use vstd::prelude::*;

verus! {

/// A pool and the slots that draw from it.
pub struct Fleet {
    pub pool: PoolView,
    pub slots: Seq<SlotView>,
}

/// One slot is told of one event.
pub struct Move {
    pub slot: int,
    pub event: EventView,
}

impl Fleet {
    /// A download before anything has happened: no candidate is handed out,
    /// and every slot is idle.
    pub open spec fn fresh(urls: Seq<Seq<char>>, stems: Seq<Seq<char>>) -> Fleet {
        Fleet {
            pool: PoolView { all: urls, taken: 0 },
            slots: Seq::new(
                stems.len(),
                |i: int| SlotView { stem: stems[i], phase: PhaseView::Idle },
            ),
        }
    }

    /// The move names a slot of the fleet.
    pub open spec fn admits(self, mv: Move) -> bool {
        0 <= mv.slot < self.slots.len()
    }

    /// The move makes its slot draw a candidate, and one is left.
    pub open spec fn hands_out(self, mv: Move) -> bool {
        &&& self.admits(mv)
        &&& draws(self.slots[mv.slot].phase, mv.event)
        &&& self.pool.taken < self.pool.all.len()
    }

    /// The fleet after a move: the slot it names advances, with the pool. A
    /// move that names no slot changes nothing.
    pub open spec fn step(self, mv: Move) -> Fleet {
        if self.admits(mv) {
            let (slot, pool) = slot_advance(self.slots[mv.slot], self.pool, mv.event);
            Fleet { pool, slots: self.slots.update(mv.slot, slot) }
        } else {
            self
        }
    }

    /// The fleet after a sequence of moves.
    pub open spec fn run(self, moves: Seq<Move>) -> Fleet
        decreases moves.len(),
    {
        if moves.len() == 0 {
            self
        } else {
            self.run(moves.drop_last()).step(moves.last())
        }
    }

    /// Who drew each candidate that was handed out during the moves: the
    /// slots' indices, in the order of the draws.
    pub open spec fn drawers(self, moves: Seq<Move>) -> Seq<int>
        decreases moves.len(),
    {
        if moves.len() == 0 {
            Seq::empty()
        } else {
            let earlier = self.drawers(moves.drop_last());
            if self.run(moves.drop_last()).hands_out(moves.last()) {
                earlier.push(moves.last().slot)
            } else {
                earlier
            }
        }
    }

    /// Every slot has ended: it is filled or has overflowed.
    pub open spec fn settled(self) -> bool {
        forall|i: int|
            0 <= i < self.slots.len() ==> (#[trigger] self.slots[i]).phase is Filled
                || self.slots[i].phase is Overflowed
    }
}

/// The path is the stem, a dot, and some extension.
pub open spec fn names_stem(path: Seq<char>, stem: Seq<char>) -> bool {
    exists|extension: Seq<char>| path == resolved_path(stem, extension)
}

/// How many of the slots have begun.
pub open spec fn started(slots: Seq<SlotView>) -> nat
    decreases slots.len(),
{
    if slots.len() == 0 {
        0
    } else if slots.last().phase is Idle {
        started(slots.drop_last())
    } else {
        started(slots.drop_last()) + 1
    }
}

proof fn lemma_started_bound(slots: Seq<SlotView>)
    ensures
        started(slots) <= slots.len(),
        (exists|i: int| 0 <= i < slots.len() && slots[i].phase is Idle) ==> started(slots)
            < slots.len(),
        (forall|i: int| 0 <= i < slots.len() ==> !(slots[i].phase is Idle)) ==> started(slots)
            == slots.len(),
    decreases slots.len(),
{
    if slots.len() > 0 {
        lemma_started_bound(slots.drop_last());
        if exists|i: int| 0 <= i < slots.len() && slots[i].phase is Idle {
            let i = choose|i: int| 0 <= i < slots.len() && slots[i].phase is Idle;
            if i < slots.len() - 1 {
                assert(slots.drop_last()[i].phase is Idle);
            }
        }
    }
}

proof fn lemma_started_update(slots: Seq<SlotView>, at: int, slot: SlotView)
    requires
        0 <= at < slots.len(),
    ensures
        started(slots.update(at, slot)) == started(slots) + (if slots[at].phase is Idle
            && !(slot.phase is Idle) {
            1int
        } else if !(slots[at].phase is Idle) && slot.phase is Idle {
            -1int
        } else {
            0int
        }),
    decreases slots.len(),
{
    let updated = slots.update(at, slot);
    if at == slots.len() - 1 {
        assert(updated.drop_last() == slots.drop_last());
    } else {
        lemma_started_update(slots.drop_last(), at, slot);
        assert(updated.drop_last() == slots.drop_last().update(at, slot));
    }
}

proof fn lemma_paths_none_filled(slots: Seq<SlotView>)
    requires
        forall|i: int| 0 <= i < slots.len() ==> !(slots[i].phase is Filled),
    ensures
        paths_of(slots) == Seq::<Seq<char>>::empty(),
    decreases slots.len(),
{
    if slots.len() > 0 {
        lemma_paths_none_filled(slots.drop_last());
    }
}

proof fn lemma_paths_all_filled(slots: Seq<SlotView>)
    requires
        forall|i: int| 0 <= i < slots.len() ==> slots[i].phase is Filled,
    ensures
        paths_of(slots).len() == slots.len(),
        forall|i: int|
            0 <= i < slots.len() ==> slots[i].phase == (PhaseView::Filled {
                path: #[trigger] paths_of(slots)[i],
            }),
    decreases slots.len(),
{
    if slots.len() > 0 {
        lemma_paths_all_filled(slots.drop_last());
    }
}

/// No more files are stored than there are slots.
pub proof fn lemma_paths_within_slots(slots: Seq<SlotView>)
    ensures
        paths_of(slots).len() <= slots.len(),
    decreases slots.len(),
{
    if slots.len() > 0 {
        lemma_paths_within_slots(slots.drop_last());
    }
}

/// However the slots are scheduled, the path that a slot stores its file at
/// is its stem, a dot, and an extension that it was told.
pub proof fn lemma_paths_from_stems(urls: Seq<Seq<char>>, stems: Seq<Seq<char>>, moves: Seq<Move>)
    ensures
        ({
            let reached = Fleet::fresh(urls, stems).run(moves);
            &&& reached.slots.len() == stems.len()
            &&& forall|i: int|
                0 <= i < stems.len() ==> (#[trigger] reached.slots[i].phase is Storing
                    ==> names_stem(reached.slots[i].phase->Storing_path, stems[i]))
            &&& forall|i: int|
                0 <= i < stems.len() ==> (#[trigger] reached.slots[i].phase is Filled
                    ==> names_stem(reached.slots[i].phase->Filled_path, stems[i]))
        }),
    decreases moves.len(),
{
    let start = Fleet::fresh(urls, stems);
    if moves.len() > 0 {
        lemma_paths_from_stems(urls, stems, moves.drop_last());
        lemma_each_candidate_once(urls, stems, moves.drop_last());
        assert(start.run(moves) == start.run(moves.drop_last()).step(moves.last()));
    }
}

/// However the slots are scheduled, every candidate is handed out at most
/// once, in the pool's order, and to one slot.
///
/// After any moves, the pool holds the candidates it was made with, and no
/// more are handed out than there are. The draws that got a candidate are as
/// many as the candidates handed out: the draw at position `j` got candidate
/// `j`, and no other draw did. A slot that waits for content waits for the
/// candidate of one of its own draws, and a slot has overflowed only where
/// the pool is exhausted.
pub proof fn lemma_each_candidate_once(
    urls: Seq<Seq<char>>,
    stems: Seq<Seq<char>>,
    moves: Seq<Move>,
)
    ensures
        ({
            let start = Fleet::fresh(urls, stems);
            let reached = start.run(moves);
            let drawers = start.drawers(moves);
            &&& reached.pool.all == urls
            &&& reached.pool.taken <= urls.len()
            &&& drawers.len() == reached.pool.taken
            &&& reached.slots.len() == stems.len()
            &&& forall|i: int|
                0 <= i < stems.len() ==> (#[trigger] reached.slots[i]).stem == stems[i]
            &&& forall|j: int| 0 <= j < drawers.len() ==> 0 <= #[trigger] drawers[j] < stems.len()
            &&& forall|i: int|
                0 <= i < stems.len() && (#[trigger] reached.slots[i]).phase is Fetching
                    ==> exists|j: int|
                    0 <= j < drawers.len() && drawers[j] == i && urls[j]
                        == reached.slots[i].phase->url
            &&& forall|i: int|
                0 <= i < stems.len() && (#[trigger] reached.slots[i]).phase is Overflowed
                    ==> reached.pool.taken == urls.len()
        }),
    decreases moves.len(),
{
    let start = Fleet::fresh(urls, stems);
    if moves.len() > 0 {
        lemma_each_candidate_once(urls, stems, moves.drop_last());
        assert(start.run(moves) == start.run(moves.drop_last()).step(moves.last()));
    }
}

/// Where every attempt succeeds and there are at least as many candidates as
/// slots, every slot is filled from its first candidate, however the slots
/// are scheduled.
///
/// After moves among which none reports a failure, no slot has overflowed,
/// as many candidates are handed out as slots have begun, and no slot has
/// drawn twice; candidates that differ in the pool differ as handed out. Once
/// every slot has ended, exactly as many candidates are handed out as there
/// are slots: the first ones of the pool, each to another slot; every slot is
/// filled, and there are as many paths as slots.
pub proof fn lemma_all_succeed(urls: Seq<Seq<char>>, stems: Seq<Seq<char>>, moves: Seq<Move>)
    requires
        stems.len() <= urls.len(),
        forall|m: int| 0 <= m < moves.len() ==> !(#[trigger] moves[m].event is Failed),
    ensures
        ({
            let reached = Fleet::fresh(urls, stems).run(moves);
            let drawers = Fleet::fresh(urls, stems).drawers(moves);
            &&& reached.slots.len() == stems.len()
            &&& forall|i: int|
                0 <= i < stems.len() ==> !((#[trigger] reached.slots[i]).phase is Overflowed)
            &&& reached.pool.taken == started(reached.slots)
            &&& reached.pool.taken <= stems.len()
            &&& drawers.len() == reached.pool.taken
            &&& drawers.no_duplicates()
            &&& forall|j: int|
                0 <= j < drawers.len() ==> 0 <= #[trigger] drawers[j] < stems.len() && !(
                reached.slots[drawers[j]].phase is Idle)
            &&& urls.no_duplicates() ==> reached.pool.attempted().no_duplicates()
            &&& reached.settled() ==> {
                &&& reached.pool.taken == stems.len()
                &&& reached.pool.attempted() == urls.take(stems.len() as int)
                &&& paths_of(reached.slots).len() == stems.len()
                &&& forall|i: int|
                    0 <= i < stems.len() ==> (#[trigger] reached.slots[i]).phase is Filled
            }
        }),
    decreases moves.len(),
{
    let start = Fleet::fresh(urls, stems);
    let reached = start.run(moves);
    if moves.len() == 0 {
        assert(started(reached.slots) == 0) by {
            lemma_started_fresh(reached.slots);
        }
    } else {
        lemma_all_succeed(urls, stems, moves.drop_last());
        lemma_each_candidate_once(urls, stems, moves.drop_last());
        let before = start.run(moves.drop_last());
        let mv = moves.last();
        let earlier = start.drawers(moves.drop_last());
        let drawers = start.drawers(moves);
        if before.admits(mv) {
            lemma_started_bound(before.slots);
            lemma_started_update(before.slots, mv.slot, reached.slots[mv.slot]);
            assert forall|i: int| 0 <= i < stems.len() implies !((
            #[trigger] reached.slots[i]).phase is Overflowed) by {}
            assert forall|j: int| 0 <= j < drawers.len() implies 0 <= #[trigger] drawers[j]
                < stems.len() && !(reached.slots[drawers[j]].phase is Idle) by {}
            if before.hands_out(mv) {
                assert forall|i: int, j: int|
                    0 <= i < drawers.len() && 0 <= j < drawers.len() && i != j implies drawers[i]
                    != drawers[j] by {}
            }
        }
    }
    lemma_started_bound(reached.slots);
    if reached.settled() {
        lemma_paths_all_filled(reached.slots);
    }
}

proof fn lemma_started_fresh(slots: Seq<SlotView>)
    requires
        forall|i: int| 0 <= i < slots.len() ==> slots[i].phase is Idle,
    ensures
        started(slots) == 0,
    decreases slots.len(),
{
    if slots.len() > 0 {
        lemma_started_fresh(slots.drop_last());
    }
}

/// Where every attempt fails, no slot is ever filled, however the slots are
/// scheduled and however many candidates there are.
///
/// After moves that only start slots and report failures, no slot waits for
/// a file or is filled, and there are no paths. Once every slot has ended,
/// each one has overflowed, and where there is a slot at all, every candidate
/// has been handed out.
pub proof fn lemma_all_fail(urls: Seq<Seq<char>>, stems: Seq<Seq<char>>, moves: Seq<Move>)
    requires
        forall|m: int|
            0 <= m < moves.len() ==> (#[trigger] moves[m]).event is Start || moves[m].event is Failed,
    ensures
        ({
            let reached = Fleet::fresh(urls, stems).run(moves);
            &&& reached.slots.len() == stems.len()
            &&& forall|i: int|
                0 <= i < stems.len() ==> !((#[trigger] reached.slots[i]).phase is Storing) && !(
                reached.slots[i].phase is Filled)
            &&& paths_of(reached.slots) == Seq::<Seq<char>>::empty()
            &&& reached.settled() ==> {
                &&& forall|i: int|
                    0 <= i < stems.len() ==> (#[trigger] reached.slots[i]).phase is Overflowed
                &&& stems.len() > 0 ==> reached.pool.taken == urls.len()
            }
        }),
    decreases moves.len(),
{
    let start = Fleet::fresh(urls, stems);
    if moves.len() > 0 {
        lemma_all_fail(urls, stems, moves.drop_last());
        assert(start.run(moves) == start.run(moves.drop_last()).step(moves.last()));
    }
    lemma_paths_none_filled(start.run(moves).slots);
    lemma_each_candidate_once(urls, stems, moves);
}

} // verus!
