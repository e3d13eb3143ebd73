//! The application state behind the review tool's interface: the loaded
//! store, the review ledger, the currently selected manuscript and the
//! transient status notices. Rendering is a collaborator's concern; every
//! decision it needs is taken here.

pub mod state;

use vstd::prelude::*;

use crate::types::rank::{GroupMetaDatabase, MetaGroup};
use crate::types::{is_first_occurrence, Manuscript, ManuscriptDatabase, ManuscriptId};

use self::state::State;

verus! {

/// Why the application state cannot be constructed.
#[derive(Debug, PartialEq, Eq, Structural, Clone, Copy)]
pub enum Error {
    /// The manuscript input was empty; navigation needs at least one entry.
    NoManuscript,
}

impl Error {
    /// The human-readable wording of this error.
    pub fn message(&self) -> (r: &'static str)
        ensures
            r@ == "expected at least 1 manuscript; nothing given."@,
    {
        "expected at least 1 manuscript; nothing given."
    }
}

/// The review tool's application state for one rubric schema `M`.
pub struct ReviewToolApp<M: MetaGroup> {
    manuscripts: ManuscriptDatabase,
    rank_groups: GroupMetaDatabase<M>,
    current_selected: ManuscriptId,
    state: State,
}

impl<M: MetaGroup> ReviewToolApp<M> {
    /// The manuscript store.
    pub closed spec fn store(&self) -> ManuscriptDatabase {
        self.manuscripts
    }

    /// The review ledger.
    pub closed spec fn ledger(&self) -> GroupMetaDatabase<M> {
        self.rank_groups
    }

    /// The identity of the currently selected manuscript.
    pub closed spec fn selected(&self) -> Seq<u8> {
        self.current_selected@
    }

    /// The transient status state.
    pub closed spec fn status(&self) -> State {
        self.state
    }

    /// The application state's invariant: a sound ledger, a non-empty store
    /// and a selection that resolves in it.
    pub open spec fn wf(&self) -> bool {
        &&& self.ledger().wf()
        &&& self.store().order_spec().len() > 0
        &&& self.store().map_spec().dom().contains(self.selected())
    }

    /// Build the application state. Refuses an empty manuscript input: the
    /// navigation invariants need at least one entry. Starts at the first
    /// manuscript in presentation order.
    pub fn new(manuscripts: ManuscriptDatabase, rank_groups: GroupMetaDatabase<M>) -> (r: Result<
        Self,
        Error,
    >)
        requires
            rank_groups.wf(),
        ensures
            match r {
                Ok(app) => {
                    &&& app.wf()
                    &&& manuscripts.order_spec().len() > 0
                    &&& app.store() == manuscripts
                    &&& app.ledger() == rank_groups
                    &&& app.selected() == manuscripts.order_spec()[0]
                },
                Err(e) => e == Error::NoManuscript && manuscripts.order_spec().len() == 0,
            },
    {
        let first = match manuscripts.first() {
            Some(id) => id.clone(),
            None => {
                return Err(Error::NoManuscript);
            }
        };
        Ok(
            ReviewToolApp {
                manuscripts,
                rank_groups,
                current_selected: first,
                state: State::default(),
            },
        )
    }

    /// The identity of the currently selected manuscript.
    pub fn selected_id(&self) -> (r: &ManuscriptId)
        ensures
            r@ == self.selected(),
    {
        &self.current_selected
    }

    /// The currently selected manuscript's record.
    pub fn get_current_manuscript(&self) -> (r: &Manuscript)
        requires
            self.wf(),
        ensures
            *r == self.store().map_spec()[self.selected()],
    {
        match self.manuscripts.get(&self.current_selected) {
            Some(m) => m,
            None => vstd::pervasive::unreached(),
        }
    }

    /// The rubric instance of the currently selected manuscript, created
    /// default-valued on first access.
    pub fn get_current_rank_or_set_default(&mut self) -> (r: &mut M)
        requires
            old(self).wf(),
        ensures
            final(self).wf(),
            final(self).store() == old(self).store(),
            final(self).selected() == old(self).selected(),
            old(self).ledger().map_spec().dom().contains(old(self).selected()) ==> *r == old(
                self,
            ).ledger().map_spec()[old(self).selected()],
            !old(self).ledger().map_spec().dom().contains(old(self).selected()) ==> r.is_fresh(),
            final(self).ledger().map_spec() == old(self).ledger().map_spec().insert(
                old(self).selected(),
                *final(r),
            ),
    {
        self.rank_groups.get_or_create(&self.current_selected)
    }

    /// Move the selection to the next manuscript in presentation order; the
    /// last entry stays selected at the end.
    pub fn select_next(&mut self)
        requires
            old(self).wf(),
        ensures
            final(self).wf(),
            final(self).store() == old(self).store(),
            final(self).ledger() == old(self).ledger(),
            final(self).store().order_spec().contains(final(self).selected()),
            forall|i: int|
                is_first_occurrence(old(self).store().order_spec(), old(self).selected(), i)
                    ==> final(self).selected() == (if i == old(self).store().order_spec().len()
                    - 1 {
                    old(self).store().order_spec()[i]
                } else {
                    old(self).store().order_spec()[i + 1]
                }),
            !old(self).store().order_spec().contains(old(self).selected())
                ==> final(self).selected()
                == old(self).store().order_spec()[old(self).store().order_spec().len() - 1],
    {
        let next = match self.manuscripts.next(&self.current_selected) {
            Some(id) => id.clone(),
            None => vstd::pervasive::unreached(),
        };
        self.current_selected = next;
    }

    /// Move the selection to the previous manuscript in presentation order;
    /// the first entry stays selected at the start.
    pub fn select_previous(&mut self)
        requires
            old(self).wf(),
        ensures
            final(self).wf(),
            final(self).store() == old(self).store(),
            final(self).ledger() == old(self).ledger(),
            final(self).store().order_spec().contains(final(self).selected()),
            forall|i: int|
                is_first_occurrence(old(self).store().order_spec(), old(self).selected(), i)
                    ==> final(self).selected() == (if i == 0 {
                    old(self).store().order_spec()[0]
                } else {
                    old(self).store().order_spec()[i - 1]
                }),
            !old(self).store().order_spec().contains(old(self).selected())
                ==> final(self).selected() == old(self).store().order_spec()[0],
    {
        let prev = match self.manuscripts.previous(&self.current_selected) {
            Some(id) => id.clone(),
            None => vstd::pervasive::unreached(),
        };
        self.current_selected = prev;
    }

    /// Select the manuscript under `id`. Ignored when the identity is not in
    /// the store, so the invariant cannot be broken from outside.
    pub fn select(&mut self, id: &ManuscriptId)
        requires
            old(self).wf(),
        ensures
            final(self).wf(),
            final(self).store() == old(self).store(),
            final(self).ledger() == old(self).ledger(),
            old(self).store().map_spec().dom().contains(id@) ==> final(self).selected() == id@,
            !old(self).store().map_spec().dom().contains(id@) ==> final(self).selected() == old(
                self,
            ).selected(),
    {
        match self.manuscripts.get(id) {
            Some(_) => {
                self.current_selected = id.clone();
            }
            None => {}
        }
    }

    /// Remove every rubric instance and raise the "reset" notice: the
    /// explicit, irreversible full reset.
    pub fn clear_ranks(&mut self, now_ms: u64)
        requires
            old(self).wf(),
            now_ms + state::NOTICE_MILLIS <= u64::MAX,
        ensures
            final(self).wf(),
            final(self).store() == old(self).store(),
            final(self).selected() == old(self).selected(),
            final(self).ledger().map_spec() == Map::<Seq<u8>, M>::empty(),
            final(self).status().reset_spec(),
    {
        self.rank_groups.clear();
        self.state.reset(now_ms);
    }

    /// Raise the "saved" notice after a successful save.
    pub fn mark_saved(&mut self, now_ms: u64)
        requires
            old(self).wf(),
            now_ms + state::NOTICE_MILLIS <= u64::MAX,
        ensures
            final(self).wf(),
            final(self).store() == old(self).store(),
            final(self).ledger() == old(self).ledger(),
            final(self).selected() == old(self).selected(),
            final(self).status().saved_spec(),
    {
        self.state.saved(now_ms);
    }

    /// The human-readable status line at `now`.
    pub fn status_text(&mut self, now_ms: u64) -> (r: &'static str)
        requires
            old(self).wf(),
        ensures
            final(self).wf(),
            final(self).store() == old(self).store(),
            final(self).ledger() == old(self).ledger(),
            final(self).selected() == old(self).selected(),
            final(self).status().saved_spec() && final(self).status().reset_spec() ==> r@ == (
            "The rank has been saved & reset!")@,
            final(self).status().saved_spec() && !final(self).status().reset_spec() ==> r@ == (
            "The rank has been saved!")@,
            !final(self).status().saved_spec() && final(self).status().reset_spec() ==> r@ == (
            "The rank has been reset!")@,
            !final(self).status().saved_spec() && !final(self).status().reset_spec() ==> r@ == ""@,
    {
        self.state.get_human_text(now_ms)
    }

    /// Read-only access to the store, for rendering.
    pub fn manuscripts(&self) -> (r: &ManuscriptDatabase)
        ensures
            *r == self.store(),
    {
        &self.manuscripts
    }

    /// Read-only access to the ledger, for rendering and saving.
    pub fn rank_groups(&self) -> (r: &GroupMetaDatabase<M>)
        ensures
            *r == self.ledger(),
    {
        &self.rank_groups
    }
}

} // verus!
