//! One download slot: what it does next, given what happened last.
//!
//! A slot stands for one file that is wanted. It draws a candidate from the
//! pool, has it fetched, has the content stored, and draws the next candidate
//! whenever an attempt fails, until a file is stored or the pool is exhausted.
//! The slot decides; whoever drives it fetches and writes, and reports back.

use crate::error::DownloadError;
use crate::pool::{CandidatePool, PoolView};
use crate::text::texts;
use crate::sniff::{sniff, sniffed};
use vstd::prelude::*;
use vstd::string::*;

verus! {

/// Where a slot stands.
#[derive(Debug, Clone, PartialEq, Eq)]
pub enum Phase {
    /// It has not begun.
    Idle,
    /// It waits for the content of `url`.
    Fetching { url: String },
    /// It waits for the content to be stored at `path`.
    Storing { path: String },
    /// Its file is stored at `path`.
    Filled { path: String },
    /// It gave up: the pool was exhausted.
    Overflowed,
}

/// What a slot is told.
#[derive(Debug, Clone, PartialEq, Eq)]
pub enum Event {
    /// Begin.
    Start,
    /// The attempt failed: the request, the content or the file.
    Failed(DownloadError),
    /// The content arrived and is an image with this extension.
    Sniffed(String),
    /// The file is written.
    Stored,
}

/// What a slot asks for.
#[derive(Debug, Clone, PartialEq, Eq)]
pub enum Action {
    /// Tell the slot to start.
    Begin,
    /// Fetch the content of `url`.
    Fetch { url: String },
    /// Write the content that was fetched to `path`.
    Store { path: String },
    /// Nothing more: the slot is filled or has overflowed.
    Finish,
}

/// One wanted file: the stem of its path, and where the slot stands.
#[derive(Debug, Clone, PartialEq, Eq)]
pub struct Slot {
    pub stem: String,
    pub phase: Phase,
}

/// A phase as contracts speak of it.
pub enum PhaseView {
    Idle,
    Fetching { url: Seq<char> },
    Storing { path: Seq<char> },
    Filled { path: Seq<char> },
    Overflowed,
}

/// An event as contracts speak of it.
pub enum EventView {
    Start,
    Failed(DownloadError),
    Sniffed(Seq<char>),
    Stored,
}

/// An action as contracts speak of it.
pub enum ActionView {
    Begin,
    Fetch { url: Seq<char> },
    Store { path: Seq<char> },
    Finish,
}

/// A slot as contracts speak of it.
pub struct SlotView {
    pub stem: Seq<char>,
    pub phase: PhaseView,
}

impl View for Phase {
    type V = PhaseView;

    open spec fn view(&self) -> PhaseView {
        match self {
            Phase::Idle => PhaseView::Idle,
            Phase::Fetching { url } => PhaseView::Fetching { url: url@ },
            Phase::Storing { path } => PhaseView::Storing { path: path@ },
            Phase::Filled { path } => PhaseView::Filled { path: path@ },
            Phase::Overflowed => PhaseView::Overflowed,
        }
    }
}

impl View for Event {
    type V = EventView;

    open spec fn view(&self) -> EventView {
        match self {
            Event::Start => EventView::Start,
            Event::Failed(reason) => EventView::Failed(*reason),
            Event::Sniffed(extension) => EventView::Sniffed(extension@),
            Event::Stored => EventView::Stored,
        }
    }
}

impl View for Action {
    type V = ActionView;

    open spec fn view(&self) -> ActionView {
        match self {
            Action::Begin => ActionView::Begin,
            Action::Fetch { url } => ActionView::Fetch { url: url@ },
            Action::Store { path } => ActionView::Store { path: path@ },
            Action::Finish => ActionView::Finish,
        }
    }
}

impl View for Slot {
    type V = SlotView;

    open spec fn view(&self) -> SlotView {
        SlotView { stem: self.stem@, phase: self.phase@ }
    }
}

/// The path of a file: the stem, a dot, and the extension.
pub open spec fn resolved_path(stem: Seq<char>, extension: Seq<char>) -> Seq<char> {
    stem + "."@ + extension
}

/// The event makes a slot in this phase draw a candidate: the start of an
/// idle slot, and the failure of an attempt that is under way.
pub open spec fn draws(phase: PhaseView, event: EventView) -> bool {
    match (phase, event) {
        (PhaseView::Idle, EventView::Start) => true,
        (PhaseView::Fetching { .. }, EventView::Failed(_)) => true,
        (PhaseView::Storing { .. }, EventView::Failed(_)) => true,
        _ => false,
    }
}

/// The slot and the pool after the slot is told of an event.
///
/// A slot that draws takes the next candidate and waits for its content, or
/// overflows where none is left. Content that is an image has a slot that
/// waits for content wait for the file, at the path of its stem and the
/// extension. The stored file fills a slot that waits for it. Any other event
/// changes nothing.
pub open spec fn slot_advance(slot: SlotView, pool: PoolView, event: EventView) -> (
    SlotView,
    PoolView,
) {
    if draws(slot.phase, event) {
        match pool.take() {
            (rest, Some(url)) => (
                SlotView { stem: slot.stem, phase: PhaseView::Fetching { url } },
                rest,
            ),
            (rest, None) => (SlotView { stem: slot.stem, phase: PhaseView::Overflowed }, rest),
        }
    } else {
        match (slot.phase, event) {
            (PhaseView::Fetching { .. }, EventView::Sniffed(extension)) => (
                SlotView {
                    stem: slot.stem,
                    phase: PhaseView::Storing { path: resolved_path(slot.stem, extension) },
                },
                pool,
            ),
            (PhaseView::Storing { path }, EventView::Stored) => (
                SlotView { stem: slot.stem, phase: PhaseView::Filled { path } },
                pool,
            ),
            _ => (slot, pool),
        }
    }
}

/// What a slot in this phase asks for.
pub open spec fn pending(phase: PhaseView) -> ActionView {
    match phase {
        PhaseView::Idle => ActionView::Begin,
        PhaseView::Fetching { url } => ActionView::Fetch { url },
        PhaseView::Storing { path } => ActionView::Store { path },
        PhaseView::Filled { .. } => ActionView::Finish,
        PhaseView::Overflowed => ActionView::Finish,
    }
}

/// How a slot ended, if it has: with its file's path, or by overflow.
pub open spec fn outcome_of(phase: PhaseView) -> Option<Result<Seq<char>, DownloadError>> {
    match phase {
        PhaseView::Filled { path } => Some(Ok(path)),
        PhaseView::Overflowed => Some(Err(DownloadError::Overflow)),
        _ => None,
    }
}

/// What the arrival of content tells a slot: that it is an image with its
/// extension, or that the attempt failed for want of one.
pub open spec fn arrival(content: Seq<u8>) -> EventView {
    match sniffed(content) {
        Ok(extension) => EventView::Sniffed(extension),
        Err(reason) => EventView::Failed(reason),
    }
}

impl Slot {
    /// An idle slot for the file with this stem.
    pub fn new(stem: String) -> (slot: Slot)
        ensures
            slot@ == (SlotView { stem: stem@, phase: PhaseView::Idle }),
    {
        Slot { stem, phase: Phase::Idle }
    }

    /// What the slot asks for as it stands.
    pub fn pending(&self) -> (action: Action)
        ensures
            action@ == pending(self@.phase),
    {
        match &self.phase {
            Phase::Idle => Action::Begin,
            Phase::Fetching { url } => Action::Fetch { url: url.clone() },
            Phase::Storing { path } => Action::Store { path: path.clone() },
            Phase::Filled { .. } => Action::Finish,
            Phase::Overflowed => Action::Finish,
        }
    }

    /// Tells the slot of an event, and returns what it asks for next. The
    /// pool is touched only where the slot draws a candidate.
    pub fn advance(&mut self, pool: &mut CandidatePool, event: Event) -> (action: Action)
        ensures
            (final(self)@, final(pool)@) == slot_advance(old(self)@, old(pool)@, event@),
            action@ == pending(final(self)@.phase),
    {
        let drawing = match (&self.phase, &event) {
            (Phase::Idle, Event::Start) => true,
            (Phase::Fetching { .. }, Event::Failed(_)) => true,
            (Phase::Storing { .. }, Event::Failed(_)) => true,
            _ => false,
        };
        if drawing {
            match pool.take_next() {
                Some(url) => {
                    self.phase = Phase::Fetching { url };
                },
                None => {
                    self.phase = Phase::Overflowed;
                },
            }
        } else {
            match event {
                Event::Sniffed(extension) => {
                    if let Phase::Fetching { .. } = &self.phase {
                        let mut path = self.stem.clone();
                        path.append(".");
                        path.append(extension.as_str());
                        self.phase = Phase::Storing { path };
                    }
                },
                Event::Stored => {
                    let stored = match &self.phase {
                        Phase::Storing { path } => Some(path.clone()),
                        _ => None,
                    };
                    if let Some(path) = stored {
                        self.phase = Phase::Filled { path };
                    }
                },
                _ => {},
            }
        }
        self.pending()
    }

    /// Tells the slot that content arrived: classifies it, and advances by
    /// what that gives.
    pub fn receive(&mut self, pool: &mut CandidatePool, content: &[u8]) -> (action: Action)
        ensures
            (final(self)@, final(pool)@) == slot_advance(
                old(self)@,
                old(pool)@,
                arrival(content@),
            ),
            action@ == pending(final(self)@.phase),
    {
        match sniff(content) {
            Ok(extension) => self.advance(pool, Event::Sniffed(extension)),
            Err(reason) => self.advance(pool, Event::Failed(reason)),
        }
    }

    /// How the slot ended: `None` while it has not.
    pub fn outcome(&self) -> (outcome: Option<Result<String, DownloadError>>)
        ensures
            match outcome {
                Some(Ok(path)) => outcome_of(self@.phase) == Some(
                    Ok::<Seq<char>, DownloadError>(path@),
                ),
                Some(Err(reason)) => outcome_of(self@.phase) == Some(
                    Err::<Seq<char>, DownloadError>(reason),
                ),
                None => outcome_of(self@.phase) is None,
            },
    {
        match &self.phase {
            Phase::Filled { path } => Some(Ok(path.clone())),
            Phase::Overflowed => Some(Err(DownloadError::Overflow)),
            _ => None,
        }
    }
}

/// The paths of the files of the slots that are filled, in the slots' order.
pub open spec fn paths_of(slots: Seq<SlotView>) -> Seq<Seq<char>>
    decreases slots.len(),
{
    if slots.len() == 0 {
        Seq::empty()
    } else {
        let before = paths_of(slots.drop_last());
        match slots.last().phase {
            PhaseView::Filled { path } => before.push(path),
            _ => before,
        }
    }
}

/// The views of a run of slots, in order.
pub open spec fn slot_views(slots: Seq<Slot>) -> Seq<SlotView> {
    slots.map_values(|slot: Slot| slot@)
}

/// Collects the paths of the files that were stored, in the slots' order; a
/// slot that overflowed, or has not ended, adds none.
pub fn resolved_paths(slots: &Vec<Slot>) -> (paths: Vec<String>)
    ensures
        texts(paths@) == paths_of(slot_views(slots@)),
        paths@.len() <= slots@.len(),
{
    let mut paths: Vec<String> = Vec::new();
    let mut i: usize = 0;
    while i < slots.len()
        invariant
            i <= slots.len(),
            texts(paths@) == paths_of(slot_views(slots@).take(i as int)),
            paths@.len() <= i,
        decreases slots.len() - i,
    {
        proof {
            let next = slot_views(slots@).take(i + 1);
            assert(next.drop_last() == slot_views(slots@).take(i as int));
        }
        match &slots[i].phase {
            Phase::Filled { path } => {
                let path = path.clone();
                paths.push(path);
            },
            _ => {},
        }
        i += 1;
    }
    assert(slot_views(slots@).take(i as int) == slot_views(slots@));
    paths
}

} // verus!
