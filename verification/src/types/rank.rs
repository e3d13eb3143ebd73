//! The rubric model: item and group capability traits, the four-grade choice,
//! and the review ledger mapping manuscript identities to rubric instances.

pub mod sitcon_gdsc;

use vstd::prelude::*;

use super::ManuscriptId;

verus! {

/// The standard choice for ranking: four ordered qualitative grades.
#[derive(PartialEq, Eq, Structural, Copy, Clone, Debug, Hash)]
pub enum StandardChoice {
    /// 完全符合要求 (Full Match): the default grade.
    Full,
    /// 部分符合要求 (Partial Match)
    Partial,
    /// 可能符合要求 (Maybe Match)
    Maybe,
    /// 完全不符合要求 (No Match)
    No,
}

impl Default for StandardChoice {
    /// A fresh choice starts at the neutral grade, Full.
    fn default() -> (r: Self)
        ensures
            r == StandardChoice::Full,
    {
        StandardChoice::Full
    }
}

impl StandardChoice {
    /// The fixed display wording of this grade.
    pub fn as_str(&self) -> (r: &'static str)
        ensures
            self == StandardChoice::Full ==> r@ == "完全符合要求"@,
            self == StandardChoice::Partial ==> r@ == "部分符合要求"@,
            self == StandardChoice::Maybe ==> r@ == "可能符合要求"@,
            self == StandardChoice::No ==> r@ == "完全不符合要求"@,
    {
        match self {
            StandardChoice::Full => "完全符合要求",
            StandardChoice::Partial => "部分符合要求",
            StandardChoice::Maybe => "可能符合要求",
            StandardChoice::No => "完全不符合要求",
        }
    }

    /// The display glyph of this grade.
    pub fn as_emoji(&self) -> (r: &'static str)
        ensures
            r@ == emoji_of(*self),
    {
        match self {
            StandardChoice::Full => "✅",
            StandardChoice::Partial => "👌",
            StandardChoice::Maybe => "🤔",
            StandardChoice::No => "⚠️",
        }
    }
}

/// The glyph each grade renders as.
pub open spec fn emoji_of(c: StandardChoice) -> Seq<char> {
    match c {
        StandardChoice::Full => "✅"@,
        StandardChoice::Partial => "👌"@,
        StandardChoice::Maybe => "🤔"@,
        StandardChoice::No => "⚠️"@,
    }
}

/// A rank item: one leaf criterion with a fixed name, an optional fixed
/// description, a mutable choice and a mutable optional comment.
pub trait Item: Sized {
    /// The item's fixed display name.
    spec fn name_spec(&self) -> Seq<char>;

    /// The item's fixed description, if it has one.
    spec fn description_spec(&self) -> Option<Seq<char>>;

    /// The current choice.
    spec fn choice_spec(&self) -> StandardChoice;

    /// The current comment, if any.
    spec fn comment_spec(&self) -> Option<Seq<char>>;

    /// The item name.
    fn name(&self) -> (r: &str)
        ensures
            r@ == self.name_spec(),
    ;

    /// The item description.
    fn description(&self) -> (r: Option<&str>)
        ensures
            match r {
                Some(d) => self.description_spec() == Some(d@),
                None => self.description_spec() is None,
            },
    ;

    /// The item choice.
    fn choice(&self) -> (r: StandardChoice)
        ensures
            r == self.choice_spec(),
    ;

    /// The mutable item choice. Writing through it changes the choice and
    /// nothing else.
    fn choice_mut(&mut self) -> (r: &mut StandardChoice)
        ensures
            *r == old(self).choice_spec(),
            final(self).choice_spec() == *final(r),
            final(self).name_spec() == old(self).name_spec(),
            final(self).description_spec() == old(self).description_spec(),
            final(self).comment_spec() == old(self).comment_spec(),
    ;

    /// The item comment.
    fn comment(&self) -> (r: Option<&str>)
        ensures
            match r {
                Some(c) => self.comment_spec() == Some(c@),
                None => self.comment_spec() is None,
            },
    ;

    /// The mutable item comment. Writing through it changes the comment and
    /// nothing else.
    fn comment_mut(&mut self) -> (r: &mut Option<String>)
        ensures
            (*r).deep_view() == old(self).comment_spec(),
            final(self).comment_spec() == (*final(r)).deep_view(),
            final(self).name_spec() == old(self).name_spec(),
            final(self).description_spec() == old(self).description_spec(),
            final(self).choice_spec() == old(self).choice_spec(),
    ;
}

/// A group of items with a scoring policy. Scores are stated in tenths of a
/// point, so that fixed decimal weight tables stay exact.
pub trait ItemGroup {
    /// The group's fixed display name.
    spec fn name_spec(&self) -> Seq<char>;

    /// The group's fixed description, if it has one.
    spec fn description_spec(&self) -> Option<Seq<char>>;

    /// The score of this group, in tenths of a point.
    spec fn score_spec(&self) -> int;

    /// The rationale text of the score, if the group produces one.
    spec fn score_description_spec(&self) -> Option<Seq<char>>;

    /// The name of this group.
    fn name(&self) -> (r: &str)
        ensures
            r@ == self.name_spec(),
    ;

    /// The description of this group.
    fn description(&self) -> (r: Option<&str>)
        ensures
            match r {
                Some(d) => self.description_spec() == Some(d@),
                None => self.description_spec() is None,
            },
    ;

    /// The score of this group, in tenths of a point.
    fn score_tenths(&self) -> (r: u64)
        ensures
            r as int == self.score_spec(),
    ;

    /// The human-readable rationale of the score.
    fn score_description(&self) -> (r: Option<String>)
        ensures
            match r {
                Some(d) => self.score_description_spec() == Some(d@),
                None => self.score_description_spec() is None,
            },
    ;
}

/// An item group that additionally carries one mutable group-level comment.
pub trait CommentableItemGroup: ItemGroup {
    /// The current group comment.
    spec fn group_comment_spec(&self) -> Seq<char>;

    /// The group comment.
    fn comment(&self) -> (r: &str)
        ensures
            r@ == self.group_comment_spec(),
    ;

    /// The mutable group comment. Writing through it changes the comment and
    /// leaves the score and the fixed texts alone.
    fn comment_mut(&mut self) -> (r: &mut String)
        ensures
            (*r)@ == old(self).group_comment_spec(),
            final(self).group_comment_spec() == (*final(r))@,
            final(self).name_spec() == old(self).name_spec(),
            final(self).description_spec() == old(self).description_spec(),
            final(self).score_spec() == old(self).score_spec(),
            final(self).score_description_spec() == old(self).score_description_spec(),
    ;
}

/// A group of item groups — the top-level scorable unit for one manuscript.
pub trait MetaGroup: Sized {
    /// Whether this rubric instance is marked reviewed.
    spec fn reviewed_spec(&self) -> bool;

    /// Whether this instance is default-valued: every item at its default
    /// choice, every comment empty.
    spec fn is_fresh(&self) -> bool;

    /// Is this meta group reviewed? Always false for schema versions without
    /// the toggling capability.
    fn reviewed(&self) -> (r: bool)
        ensures
            r == self.reviewed_spec(),
    ;

    /// A default-valued instance: every item at its default choice, comments
    /// empty, and not reviewed.
    fn fresh() -> (r: Self)
        ensures
            r.is_fresh(),
            !r.reviewed_spec(),
    ;
}

/// A meta group whose reviewed flag can be toggled. Schema versions without
/// this capability report a constant "not reviewed" instead.
pub trait MutableMetaGroup: MetaGroup {
    /// The mutable review status of this meta group.
    fn reviewed_mut(&mut self) -> (r: &mut bool)
        ensures
            *r == old(self).reviewed_spec(),
            final(self).reviewed_spec() == *final(r),
    ;
}

/// The rubric schema with no criteria at all: never reviewed, nothing stored.
impl MetaGroup for () {
    open spec fn reviewed_spec(&self) -> bool {
        false
    }

    open spec fn is_fresh(&self) -> bool {
        true
    }

    fn reviewed(&self) -> (r: bool)
        ensures
            r == self.reviewed_spec(),
    {
        false
    }

    fn fresh() -> (r: Self)
        ensures
            r.is_fresh(),
            !r.reviewed_spec(),
    {
    }
}

/// The key-to-rubric mapping an entry list denotes: later entries shadow
/// earlier ones with the same key.
pub open spec fn ledger_map_of<M>(s: Seq<(ManuscriptId, M)>) -> Map<Seq<u8>, M>
    decreases s.len(),
{
    if s.len() == 0 {
        Map::empty()
    } else {
        ledger_map_of(s.drop_last()).insert(s.last().0@, s.last().1)
    }
}

/// The entry list holds pairwise distinct keys.
pub open spec fn ledger_keys_unique<M>(s: Seq<(ManuscriptId, M)>) -> bool {
    forall|i: int, j: int| 0 <= i < j < s.len() ==> s[i].0@ != s[j].0@
}

pub(crate) proof fn lemma_ledger_contains<M>(s: Seq<(ManuscriptId, M)>, k: Seq<u8>)
    ensures
        ledger_map_of(s).dom().contains(k) <==> exists|j: int| 0 <= j < s.len() && s[j].0@ == k,
    decreases s.len(),
{
    if s.len() > 0 {
        lemma_ledger_contains(s.drop_last(), k);
        if ledger_map_of(s).dom().contains(k) {
            if s.last().0@ != k {
                let j = choose|j: int| 0 <= j < s.drop_last().len() && s.drop_last()[j].0@ == k;
                assert(s[j].0@ == k);
            }
        }
        if exists|j: int| 0 <= j < s.len() && s[j].0@ == k {
            let j = choose|j: int| 0 <= j < s.len() && s[j].0@ == k;
            if j < s.len() - 1 {
                assert(s.drop_last()[j].0@ == k);
            }
        }
    }
}

proof fn lemma_ledger_lookup<M>(s: Seq<(ManuscriptId, M)>, j: int)
    requires
        ledger_keys_unique(s),
        0 <= j < s.len(),
    ensures
        ledger_map_of(s).dom().contains(s[j].0@),
        ledger_map_of(s)[s[j].0@] == s[j].1,
    decreases s.len(),
{
    if j < s.len() - 1 {
        assert(s.drop_last()[j] == s[j]);
        lemma_ledger_lookup(s.drop_last(), j);
        assert(s.last().0@ != s[j].0@);
    }
}

proof fn lemma_ledger_card<M>(s: Seq<(ManuscriptId, M)>)
    requires
        ledger_keys_unique(s),
    ensures
        ledger_map_of(s).dom().finite(),
        ledger_map_of(s).dom().len() == s.len(),
    decreases s.len(),
{
    if s.len() > 0 {
        lemma_ledger_card(s.drop_last());
        lemma_ledger_contains(s.drop_last(), s.last().0@);
        assert(!ledger_map_of(s.drop_last()).dom().contains(s.last().0@));
    }
}

/// Replacing the entry at `j` with one that keeps its key updates the
/// denoted mapping at that key alone.
proof fn lemma_ledger_update<M>(s: Seq<(ManuscriptId, M)>, j: int, e: (ManuscriptId, M))
    requires
        ledger_keys_unique(s),
        0 <= j < s.len(),
        e.0@ == s[j].0@,
    ensures
        ledger_map_of(s.update(j, e)) == ledger_map_of(s).insert(e.0@, e.1),
    decreases s.len(),
{
    let t = s.update(j, e);
    if j == s.len() - 1 {
        assert(t.drop_last() =~= s.drop_last());
        assert(t.last() == e);
        assert(ledger_map_of(t) == ledger_map_of(s.drop_last()).insert(e.0@, e.1));
        assert(ledger_map_of(s).insert(e.0@, e.1) =~= ledger_map_of(s.drop_last()).insert(
            e.0@,
            e.1,
        ));
    } else {
        assert(t.drop_last() =~= s.drop_last().update(j, e));
        assert(s.drop_last()[j] == s[j]);
        lemma_ledger_update(s.drop_last(), j, e);
        assert(t.last() == s.last());
        assert(s.last().0@ != e.0@);
        assert(ledger_map_of(t) == ledger_map_of(s.drop_last()).insert(e.0@, e.1).insert(
            s.last().0@,
            s.last().1,
        ));
        assert(ledger_map_of(s.drop_last()).insert(e.0@, e.1).insert(s.last().0@, s.last().1)
            =~= ledger_map_of(s.drop_last()).insert(s.last().0@, s.last().1).insert(e.0@, e.1));
    }
}

/// The database of manuscript identity to meta group: the review ledger.
/// At most one rubric instance exists per identity; absence means "not yet
/// reviewed".
pub struct GroupMetaDatabase<M: MetaGroup> {
    entries: Vec<(ManuscriptId, M)>,
}

impl<M: MetaGroup> GroupMetaDatabase<M> {
    /// The identity-to-rubric mapping this ledger holds.
    pub closed spec fn map_spec(&self) -> Map<Seq<u8>, M> {
        ledger_map_of(self.entries@)
    }

    /// The entries in insertion order; keys are pairwise distinct.
    pub closed spec fn seq_spec(&self) -> Seq<(ManuscriptId, M)> {
        self.entries@
    }

    /// The ledger's invariant: at most one rubric instance per identity.
    /// Constructors establish it and every mutating method keeps it.
    pub closed spec fn wf(&self) -> bool {
        ledger_keys_unique(self.entries@)
    }

    /// An empty ledger.
    pub fn new() -> (r: Self)
        ensures
            r.wf(),
            r.map_spec() == Map::<Seq<u8>, M>::empty(),
            r.seq_spec().len() == 0,
    {
        GroupMetaDatabase { entries: Vec::new() }
    }

    /// An empty ledger sized for `cap` manuscripts.
    pub fn with_capacity(cap: usize) -> (r: Self)
        ensures
            r.wf(),
            r.map_spec() == Map::<Seq<u8>, M>::empty(),
            r.seq_spec().len() == 0,
    {
        GroupMetaDatabase { entries: Vec::with_capacity(cap) }
    }

    /// How many rubric instances the ledger holds.
    pub fn len(&self) -> (r: usize)
        requires
            self.wf(),
        ensures
            r == self.map_spec().dom().len(),
            r == self.seq_spec().len(),
    {
        proof {
            lemma_ledger_card(self.entries@);
        }
        self.entries.len()
    }

    /// Whether the ledger holds no rubric instance at all.
    pub fn is_empty(&self) -> (r: bool)
        requires
            self.wf(),
        ensures
            r == (self.map_spec().dom() == Set::<Seq<u8>>::empty()),
    {
        proof {
            lemma_ledger_card(self.entries@);
            if self.entries@.len() == 0 {
                assert(self.map_spec().dom() =~= Set::<Seq<u8>>::empty());
            } else {
                lemma_ledger_lookup(self.entries@, 0);
                assert(self.map_spec().dom().contains(self.entries@[0].0@));
            }
        }
        self.entries.len() == 0
    }

    /// Find the index of the entry keyed by `id`, if any.
    fn find(&self, id: &ManuscriptId) -> (r: Option<usize>)
        ensures
            match r {
                Some(j) => j < self.entries@.len() && self.entries@[j as int].0@ == id@,
                None => forall|j: int|
                    0 <= j < self.entries@.len() ==> self.entries@[j].0@ != id@,
            },
    {
        let mut j: usize = 0;
        while j < self.entries.len()
            invariant
                j <= self.entries@.len(),
                forall|jj: int| 0 <= jj < j ==> self.entries@[jj].0@ != id@,
            decreases self.entries@.len() - j,
        {
            if self.entries[j].0 == *id {
                return Some(j);
            }
            j += 1;
        }
        None
    }

    /// Look the rubric instance stored under `id` up, without creating one.
    pub fn get(&self, id: &ManuscriptId) -> (r: Option<&M>)
        requires
            self.wf(),
        ensures
            match r {
                Some(m) => self.map_spec().dom().contains(id@) && *m == self.map_spec()[id@],
                None => !self.map_spec().dom().contains(id@),
            },
    {
        match self.find(id) {
            Some(j) => {
                proof {
                    lemma_ledger_lookup(self.entries@, j as int);
                }
                Some(&self.entries[j].1)
            }
            None => {
                proof {
                    lemma_ledger_contains(self.entries@, id@);
                }
                None
            }
        }
    }

    /// Whether the manuscript under `id` is marked reviewed: false when no
    /// rubric instance exists yet, else that instance's own flag.
    pub fn reviewed(&self, id: &ManuscriptId) -> (r: bool)
        requires
            self.wf(),
        ensures
            r == (self.map_spec().dom().contains(id@) && self.map_spec()[id@].reviewed_spec()),
    {
        match self.get(id) {
            Some(m) => m.reviewed(),
            None => false,
        }
    }

    /// The rubric instance for `id`: the existing one if present, else a
    /// freshly inserted default-valued one. Never fails; at most one instance
    /// per identity ever exists.
    pub fn get_or_create(&mut self, id: &ManuscriptId) -> (r: &mut M)
        requires
            old(self).wf(),
        ensures
            final(self).wf(),
            old(self).map_spec().dom().contains(id@) ==> *r == old(self).map_spec()[id@],
            !old(self).map_spec().dom().contains(id@) ==> r.is_fresh(),
            final(self).map_spec() == old(self).map_spec().insert(id@, *final(r)),
            final(self).seq_spec().len() == if old(self).map_spec().dom().contains(id@) {
                old(self).seq_spec().len()
            } else {
                old(self).seq_spec().len() + 1
            },
    {
        let found = self.find(id);
        match found {
            Some(j) => {
                proof {
                    lemma_ledger_lookup(self.entries@, j as int);
                }
                let ghost pre = self.entries@;
                let entry = &mut self.entries[j];
                let ghost gkey = entry.0;
                let r = &mut entry.1;
                proof {
                    lemma_ledger_update(pre, j as int, (gkey, *final(r)));
                    assert(ledger_keys_unique(pre.update(j as int, (gkey, *final(r)))));
                }
                r
            }
            None => {
                proof {
                    lemma_ledger_contains(self.entries@, id@);
                }
                let ghost pre = self.entries@;
                let fresh = M::fresh();
                let key = id.clone();
                let ghost gkey = key;
                self.entries.push((key, fresh));
                let ghost mid = self.entries@;
                let n = self.entries.len() - 1;
                let entry = &mut self.entries[n];
                let r = &mut entry.1;
                proof {
                    assert(mid.update(n as int, (gkey, *final(r))) =~= pre.push((
                        gkey,
                        *final(r),
                    )));
                    assert(pre.push((gkey, *final(r))).drop_last() =~= pre);
                    assert(ledger_map_of(pre.push((gkey, *final(r)))) == ledger_map_of(
                        pre,
                    ).insert(gkey@, *final(r)));
                    assert(ledger_keys_unique(pre.push((gkey, *final(r)))));
                }
                r
            }
        }
    }

    /// The number of entries, for walking the ledger in insertion order.
    pub fn entry_count(&self) -> (r: usize)
        ensures
            r == self.seq_spec().len(),
    {
        self.entries.len()
    }

    /// The entry at `i` in insertion order.
    pub fn entry_at(&self, i: usize) -> (r: (&ManuscriptId, &M))
        requires
            i < self.seq_spec().len(),
        ensures
            *r.0 == self.seq_spec()[i as int].0,
            *r.1 == self.seq_spec()[i as int].1,
    {
        let entry = &self.entries[i];
        (&entry.0, &entry.1)
    }

    /// Append an entry under an identity the ledger does not hold yet.
    pub(crate) fn insert_new(&mut self, id: ManuscriptId, m: M)
        requires
            old(self).wf(),
            !old(self).map_spec().dom().contains(id@),
        ensures
            final(self).wf(),
            final(self).seq_spec() == old(self).seq_spec().push((id, m)),
            final(self).map_spec() == old(self).map_spec().insert(id@, m),
    {
        proof {
            lemma_ledger_contains(self.entries@, id@);
        }
        let ghost pre = self.entries@;
        let ghost gid = id;
        let ghost gm = m;
        self.entries.push((id, m));
        proof {
            assert(self.entries@ =~= pre.push((gid, gm)));
            assert(self.entries@.drop_last() =~= pre);
            assert(ledger_keys_unique(self.entries@));
        }
    }

    /// The mapping is exactly what the entry list denotes.
    pub proof fn lemma_view_relation(&self)
        ensures
            self.map_spec() == ledger_map_of(self.seq_spec()),
    {
    }

    /// Remove every rubric instance: the explicit, irreversible full reset.
    pub fn clear(&mut self)
        ensures
            final(self).wf(),
            final(self).map_spec() == Map::<Seq<u8>, M>::empty(),
            final(self).seq_spec().len() == 0,
    {
        self.entries.clear();
    }
}

} // verus!
