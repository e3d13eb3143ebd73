//! Manuscript records, their content-derived identity, and the ordered store.

pub mod deserialize;
pub mod rank;

use vstd::prelude::*;

use sha2::{Digest, Sha256};

verus! {

/// One of the three difficulty levels a manuscript declares, in ascending order.
#[derive(Debug, PartialEq, Eq, Structural, Clone, Copy, PartialOrd, Ord, Hash)]
pub enum Difficulty {
    Easy,
    Medium,
    Hard,
}

impl Difficulty {
    /// The fixed display name of this difficulty level.
    pub fn as_str(&self) -> (r: &'static str)
        ensures
            self == Difficulty::Easy ==> r@ == "Easy"@,
            self == Difficulty::Medium ==> r@ == "Medium"@,
            self == Difficulty::Hard ==> r@ == "Hard"@,
    {
        match self {
            Difficulty::Easy => "Easy",
            Difficulty::Medium => "Medium",
            Difficulty::Hard => "Hard",
        }
    }
}

/// The author of a manuscript.
#[derive(Debug, PartialEq, Eq)]
pub struct Author {
    /// The author's name.
    pub name: String,

    /// The author's self-introduction.
    pub description: String,
}

/// A submitted manuscript. Immutable after construction; owned by the store.
#[derive(Debug, PartialEq, Eq)]
pub struct Manuscript {
    /// The title of this manuscript.
    pub title: String,

    /// The submission type of this manuscript.
    pub type_: String,

    /// The abstract of this manuscript.
    pub abstract_: String,

    /// The target audience of this manuscript.
    pub audience: String,

    /// The difficulty of this manuscript.
    pub difficulty: Difficulty,

    /// The free-text description of this manuscript.
    pub description: String,

    /// Supplemental material for this manuscript.
    pub extra: String,

    /// The author of this manuscript.
    pub author: Author,
}

/// The SHA-256 digest of the identity triple (title, author name, submission
/// type), fed to the hash in that order. Left abstract: equal triples give
/// equal digests, and nothing more is claimed of the bytes.
pub uninterp spec fn digest_of(title: Seq<char>, author: Seq<char>, kind: Seq<char>) -> Seq<u8>;

/// The identity bytes a manuscript hashes to.
pub open spec fn id_of(m: Manuscript) -> Seq<u8> {
    digest_of(m.title@, m.author.name@, m.type_@)
}

/// Relies on sha2's `Sha256`: feeding `update` the three strings in order and
/// calling `finalize` yields a 32-byte digest that is a function of those
/// bytes alone.
#[verifier::external_body]
fn sha256_triple(title: &str, author: &str, kind: &str) -> (r: Vec<u8>)
    ensures
        r@ == digest_of(title@, author@, kind@),
        r@.len() == 32,
{
    let mut hasher = Sha256::new();
    hasher.update(title);
    hasher.update(author);
    hasher.update(kind);
    hasher.finalize().to_vec()
}

/// The content-derived identity of a manuscript.
#[derive(Debug, Hash)]
pub struct ManuscriptId(pub Vec<u8>);

impl View for ManuscriptId {
    type V = Seq<u8>;

    open spec fn view(&self) -> Seq<u8> {
        self.0@
    }
}

impl ManuscriptId {
    /// Compute the identity of a manuscript from its title, author name and
    /// submission type. Deterministic: equal triples yield equal identities.
    pub fn hash(m: &Manuscript) -> (r: Self)
        ensures
            r@ == id_of(*m),
            r@.len() == 32,
    {
        ManuscriptId(sha256_triple(m.title.as_str(), m.author.name.as_str(), m.type_.as_str()))
    }
}

/// Two manuscripts whose titles, author names and submission types agree hash
/// to the same identity, whatever their other fields hold.
pub proof fn lemma_identity_deterministic(m1: Manuscript, m2: Manuscript)
    requires
        m1.title@ == m2.title@,
        m1.author.name@ == m2.author.name@,
        m1.type_@ == m2.type_@,
    ensures
        id_of(m1) == id_of(m2),
{
}

impl PartialEq for ManuscriptId {
    fn eq(&self, other: &Self) -> (r: bool) {
        let r = self.0 == other.0;
        proof {
            if r {
                assert(self.0@ =~= other.0@);
            }
        }
        r
    }
}

impl Eq for ManuscriptId {}

impl vstd::std_specs::cmp::PartialEqSpecImpl for ManuscriptId {
    open spec fn obeys_eq_spec() -> bool {
        true
    }

    open spec fn eq_spec(&self, other: &Self) -> bool {
        self@ == other@
    }
}

/// The key-to-manuscript mapping an entry list denotes: later entries shadow
/// earlier ones with the same key.
pub open spec fn map_of(s: Seq<(ManuscriptId, Manuscript)>) -> Map<Seq<u8>, Manuscript>
    decreases s.len(),
{
    if s.len() == 0 {
        Map::empty()
    } else {
        map_of(s.drop_last()).insert(s.last().0@, s.last().1)
    }
}

/// No manuscript after position `i` (and before `upto`) shares the identity of
/// the one at `i`: position `i` is the one whose record survives the load.
#[verifier::opaque]
pub open spec fn last_of_its_id(ms: Seq<Manuscript>, upto: int, i: int) -> bool {
    forall|j: int| i < j < upto ==> id_of(#[trigger] ms[j]) != id_of(ms[i])
}

/// Some entry stores `m` under key `k`.
#[verifier::opaque]
spec fn entry_holds(entries: Seq<(ManuscriptId, Manuscript)>, k: Seq<u8>, m: Manuscript) -> bool {
    exists|j: int| 0 <= j < entries.len() && #[trigger] entries[j].0@ == k && entries[j].1 == m
}

/// `i` is the position of the first occurrence of `key` in `s`.
pub open spec fn is_first_occurrence(s: Seq<Seq<u8>>, key: Seq<u8>, i: int) -> bool {
    &&& 0 <= i < s.len()
    &&& s[i] == key
    &&& forall|j: int| 0 <= j < i ==> s[j] != key
}

/// The immutable, order-preserving collection of all loaded manuscripts:
/// a keyed entry list plus the sequence of identities in load order.
pub struct ManuscriptDatabase {
    order: Vec<ManuscriptId>,
    entries: Vec<(ManuscriptId, Manuscript)>,
}

impl ManuscriptDatabase {
    /// The identities in presentation (load) order; one per loaded manuscript,
    /// so a colliding identity may appear twice.
    pub closed spec fn order_spec(&self) -> Seq<Seq<u8>> {
        Seq::new(self.order@.len(), |i: int| self.order@[i]@)
    }

    /// The identity-to-manuscript mapping this store holds.
    pub closed spec fn map_spec(&self) -> Map<Seq<u8>, Manuscript> {
        map_of(self.entries@)
    }

    spec fn entries_unique(s: Seq<(ManuscriptId, Manuscript)>) -> bool {
        forall|i: int, j: int| 0 <= i < j < s.len() ==> s[i].0@ != s[j].0@
    }

    #[verifier::type_invariant]
    spec fn wf(&self) -> bool {
        &&& Self::entries_unique(self.entries@)
        &&& order_covered(self.order@, self.entries@)
    }
}

/// Some entry holds the key `k`.
spec fn key_covered(entries: Seq<(ManuscriptId, Manuscript)>, k: Seq<u8>) -> bool {
    exists|j: int| 0 <= j < entries.len() && #[trigger] entries[j].0@ == k
}

/// Every identity in the order has an entry holding it.
#[verifier::opaque]
spec fn order_covered(order: Seq<ManuscriptId>, entries: Seq<(ManuscriptId, Manuscript)>) -> bool {
    forall|i: int| 0 <= i < order.len() ==> key_covered(entries, #[trigger] order[i]@)
}

/// Every key among the first `upto` manuscripts' identities.
#[verifier::opaque]
spec fn keys_from_prefix(
    entries: Seq<(ManuscriptId, Manuscript)>,
    ms: Seq<Manuscript>,
    upto: int,
) -> bool {
    forall|j: int|
        0 <= j < entries.len() ==> exists|i: int|
            0 <= i < upto && id_of(ms[i]) == #[trigger] entries[j].0@
}

/// Each of the first `upto` manuscripts' identities has an entry.
#[verifier::opaque]
spec fn prefix_stored(
    entries: Seq<(ManuscriptId, Manuscript)>,
    ms: Seq<Manuscript>,
    upto: int,
) -> bool {
    forall|i: int|
        0 <= i < upto ==> exists|j: int|
            0 <= j < entries.len() && entries[j].0@ == id_of(#[trigger] ms[i])
}

/// Each of the first `upto` manuscripts whose identity never recurs later in
/// that prefix is stored as given: the record that survives a load.
#[verifier::opaque]
spec fn survivors_stored(
    entries: Seq<(ManuscriptId, Manuscript)>,
    ms: Seq<Manuscript>,
    upto: int,
) -> bool {
    forall|i: int|
        0 <= i < upto && last_of_its_id(ms, upto, i) ==> entry_holds(
            entries,
            id_of(#[trigger] ms[i]),
            ms[i],
        )
}

/// How one load step changes the entry list: the entry holding the identity
/// of `ms[n]` is replaced, or a fresh entry is appended; keys at old
/// positions are unchanged either way.
spec fn load_step_shape(
    ms: Seq<Manuscript>,
    n: int,
    pre: Seq<(ManuscriptId, Manuscript)>,
    cur: Seq<(ManuscriptId, Manuscript)>,
) -> bool {
    &&& pre.len() <= cur.len()
    &&& forall|jj: int| 0 <= jj < pre.len() ==> #[trigger] cur[jj].0@ == pre[jj].0@
    &&& forall|jj: int|
        0 <= jj < pre.len() && #[trigger] pre[jj].0@ != id_of(ms[n]) ==> cur[jj] == pre[jj]
    &&& forall|jj: int| pre.len() <= jj < cur.len() ==> #[trigger] cur[jj].0@ == id_of(ms[n])
    &&& exists|j0: int|
        0 <= j0 < cur.len() && #[trigger] cur[j0].0@ == id_of(ms[n]) && cur[j0].1 == ms[n]
}

proof fn lemma_step_keys(
    ms: Seq<Manuscript>,
    n: int,
    pre: Seq<(ManuscriptId, Manuscript)>,
    cur: Seq<(ManuscriptId, Manuscript)>,
)
    requires
        0 <= n < ms.len(),
        keys_from_prefix(pre, ms, n),
        load_step_shape(ms, n, pre, cur),
    ensures
        keys_from_prefix(cur, ms, n + 1),
{
    reveal(keys_from_prefix);
    assert forall|jj: int| 0 <= jj < cur.len() implies exists|i: int|
        0 <= i < n + 1 && id_of(ms[i]) == #[trigger] cur[jj].0@ by {
        if jj < pre.len() {
            let i = choose|i: int| 0 <= i < n && id_of(ms[i]) == pre[jj].0@;
            assert(id_of(ms[i]) == cur[jj].0@);
        } else {
            assert(id_of(ms[n]) == cur[jj].0@);
        }
    }
}

proof fn lemma_step_stored(
    ms: Seq<Manuscript>,
    n: int,
    pre: Seq<(ManuscriptId, Manuscript)>,
    cur: Seq<(ManuscriptId, Manuscript)>,
)
    requires
        0 <= n < ms.len(),
        prefix_stored(pre, ms, n),
        load_step_shape(ms, n, pre, cur),
    ensures
        prefix_stored(cur, ms, n + 1),
{
    reveal(prefix_stored);
    let jn = choose|j0: int|
        0 <= j0 < cur.len() && #[trigger] cur[j0].0@ == id_of(ms[n]) && cur[j0].1 == ms[n];
    assert forall|i: int| 0 <= i < n + 1 implies exists|jj: int|
        0 <= jj < cur.len() && cur[jj].0@ == id_of(#[trigger] ms[i]) by {
        if i < n {
            let jj = choose|jj: int| 0 <= jj < pre.len() && pre[jj].0@ == id_of(ms[i]);
            assert(cur[jj].0@ == id_of(ms[i]));
        } else {
            assert(cur[jn].0@ == id_of(ms[n]));
        }
    }
}

proof fn lemma_step_survivors(
    ms: Seq<Manuscript>,
    n: int,
    pre: Seq<(ManuscriptId, Manuscript)>,
    cur: Seq<(ManuscriptId, Manuscript)>,
)
    requires
        0 <= n < ms.len(),
        survivors_stored(pre, ms, n),
        load_step_shape(ms, n, pre, cur),
    ensures
        survivors_stored(cur, ms, n + 1),
{
    reveal(survivors_stored);
    let jn = choose|j0: int|
        0 <= j0 < cur.len() && #[trigger] cur[j0].0@ == id_of(ms[n]) && cur[j0].1 == ms[n];
    assert forall|i: int|
        0 <= i < n + 1 && last_of_its_id(ms, n + 1, i) implies entry_holds(
        cur,
        id_of(#[trigger] ms[i]),
        ms[i],
    ) by {
        reveal(last_of_its_id);
        reveal(entry_holds);
        if i < n {
            assert(last_of_its_id(ms, n, i));
            assert(id_of(ms[n]) != id_of(ms[i]));
            assert(entry_holds(pre, id_of(ms[i]), ms[i]));
            let jj = choose|jj: int|
                0 <= jj < pre.len() && #[trigger] pre[jj].0@ == id_of(ms[i]) && pre[jj].1
                    == ms[i];
            assert(cur[jj].0@ == id_of(ms[i]) && cur[jj].1 == ms[i]);
        } else {
            assert(cur[jn].0@ == id_of(ms[i]) && cur[jn].1 == ms[i]);
        }
    }
}

proof fn lemma_load_init(entries: Seq<(ManuscriptId, Manuscript)>, ms: Seq<Manuscript>)
    requires
        entries.len() == 0,
    ensures
        keys_from_prefix(entries, ms, 0),
        prefix_stored(entries, ms, 0),
        survivors_stored(entries, ms, 0),
{
    reveal(keys_from_prefix);
    reveal(prefix_stored);
    reveal(survivors_stored);
}

proof fn lemma_map_of_contains(s: Seq<(ManuscriptId, Manuscript)>, k: Seq<u8>)
    ensures
        map_of(s).dom().contains(k) <==> exists|j: int| 0 <= j < s.len() && s[j].0@ == k,
    decreases s.len(),
{
    if s.len() > 0 {
        lemma_map_of_contains(s.drop_last(), k);
        if map_of(s).dom().contains(k) {
            if s.last().0@ != k {
                let j = choose|j: int| 0 <= j < s.drop_last().len() && s.drop_last()[j].0@ == k;
                assert(s[j].0@ == k);
            }
        }
        if exists|j: int| 0 <= j < s.len() && s[j].0@ == k {
            let j = choose|j: int| 0 <= j < s.len() && s[j].0@ == k;
            if j < s.len() - 1 {
                assert(s.drop_last()[j].0@ == k);
            }
        }
    }
}

proof fn lemma_map_of_lookup(s: Seq<(ManuscriptId, Manuscript)>, j: int)
    requires
        ManuscriptDatabase::entries_unique(s),
        0 <= j < s.len(),
    ensures
        map_of(s).dom().contains(s[j].0@),
        map_of(s)[s[j].0@] == s[j].1,
    decreases s.len(),
{
    if j < s.len() - 1 {
        assert(s.drop_last()[j] == s[j]);
        lemma_map_of_lookup(s.drop_last(), j);
        assert(s.last().0@ != s[j].0@);
    }
}

proof fn lemma_map_of_card(s: Seq<(ManuscriptId, Manuscript)>)
    requires
        ManuscriptDatabase::entries_unique(s),
    ensures
        map_of(s).dom().finite(),
        map_of(s).dom().len() == s.len(),
    decreases s.len(),
{
    if s.len() > 0 {
        lemma_map_of_card(s.drop_last());
        lemma_map_of_contains(s.drop_last(), s.last().0@);
        assert(!map_of(s.drop_last()).dom().contains(s.last().0@));
    }
}

impl ManuscriptDatabase {
    /// Load a store from a list of manuscripts. Each manuscript's identity is
    /// recorded once in the presentation order; a later manuscript with the
    /// same identity silently overwrites the earlier stored record.
    #[verifier::rlimit(50)]
    pub fn from_manuscripts(list: Vec<Manuscript>) -> (r: Self)
        ensures
            r.order_spec().len() == list@.len(),
            forall|i: int| 0 <= i < list@.len() ==> r.order_spec()[i] == id_of(#[trigger] list@[i]),
            forall|k: Seq<u8>|
                #[trigger] r.map_spec().dom().contains(k) <==> r.order_spec().contains(k),
            forall|i: int|
                0 <= i < list@.len() && last_of_its_id(list@, list@.len() as int, i)
                    ==> r.map_spec()[id_of(#[trigger] list@[i])] == list@[i],
    {
        let ghost ms = list@;
        let mut rest = list;
        let mut order: Vec<ManuscriptId> = Vec::new();
        let mut entries: Vec<(ManuscriptId, Manuscript)> = Vec::new();
        proof {
            lemma_load_init(entries@, ms);
        }
        while rest.len() > 0
            invariant
                order@.len() + rest@.len() == ms.len(),
                rest@ == ms.subrange(order@.len() as int, ms.len() as int),
                forall|i: int| 0 <= i < order@.len() ==> #[trigger] order@[i]@ == id_of(ms[i]),
                Self::entries_unique(entries@),
                keys_from_prefix(entries@, ms, order@.len() as int),
                prefix_stored(entries@, ms, order@.len() as int),
                survivors_stored(entries@, ms, order@.len() as int),
            decreases rest.len(),
        {
            let ghost n = order@.len() as int;
            let m = rest.remove(0);
            proof {
                assert(m == ms[n]);
                assert(rest@ =~= ms.subrange(n + 1, ms.len() as int));
            }
            let id = ManuscriptId::hash(&m);
            let id_for_order = id.clone();
            let ghost pre = entries@;
            match Self::find_entry(&entries, &id) {
                Some(j) => {
                    entries.set(j, (id, m));
                    proof {
                        assert(entries@[j as int].0@ == id_of(ms[n]));
                        assert(entries@[j as int].1 == ms[n]);
                        assert forall|jj: int| 0 <= jj < entries@.len() implies #[trigger] entries@[jj].0@
                            == pre[jj].0@ by {}
                        assert(Self::entries_unique(entries@));
                        assert(load_step_shape(ms, n, pre, entries@));
                    }
                }
                None => {
                    entries.push((id, m));
                    proof {
                        assert(entries@[pre.len() as int].0@ == id_of(ms[n]));
                        assert(entries@[pre.len() as int].1 == ms[n]);
                        assert forall|jj: int| 0 <= jj < pre.len() implies #[trigger] entries@[jj]
                            == pre[jj] by {}
                        assert(Self::entries_unique(entries@));
                        assert(load_step_shape(ms, n, pre, entries@));
                    }
                }
            }
            proof {
                lemma_step_keys(ms, n, pre, entries@);
                lemma_step_stored(ms, n, pre, entries@);
                lemma_step_survivors(ms, n, pre, entries@);
            }
            order.push(id_for_order);
        }
        proof {
            assert(order_covered(order@, entries@)) by {
                reveal(order_covered);
                reveal(prefix_stored);
                assert forall|i: int| 0 <= i < order@.len() implies key_covered(
                    entries@,
                    #[trigger] order@[i]@,
                ) by {
                    assert(order@[i]@ == id_of(ms[i]));
                    let j = choose|j: int|
                        0 <= j < entries@.len() && entries@[j].0@ == id_of(ms[i]);
                    assert(entries@[j].0@ == order@[i]@);
                }
            }
        }
        let db = ManuscriptDatabase { order, entries };
        proof {
            assert forall|k: Seq<u8>| #[trigger]
                db.map_spec().dom().contains(k) implies db.order_spec().contains(k) by {
                reveal(keys_from_prefix);
                lemma_map_of_contains(db.entries@, k);
                let j = choose|j: int| 0 <= j < db.entries@.len() && db.entries@[j].0@ == k;
                let i = choose|i: int|
                    0 <= i < db.order@.len() && id_of(ms[i]) == db.entries@[j].0@;
                assert(db.order_spec()[i] == k);
            }
            assert forall|k: Seq<u8>| #[trigger]
                db.order_spec().contains(k) implies db.map_spec().dom().contains(k) by {
                reveal(prefix_stored);
                let i = choose|i: int| 0 <= i < db.order_spec().len() && db.order_spec()[i] == k;
                assert(db.order@[i]@ == id_of(ms[i]));
                let j = choose|j: int|
                    0 <= j < db.entries@.len() && db.entries@[j].0@ == id_of(ms[i]);
                lemma_map_of_lookup(db.entries@, j);
            }
            assert forall|i: int|
                0 <= i < ms.len() && last_of_its_id(ms, ms.len() as int, i)
                implies db.map_spec()[id_of(#[trigger] ms[i])] == ms[i] by {
                reveal(survivors_stored);
                reveal(entry_holds);
                assert(entry_holds(db.entries@, id_of(ms[i]), ms[i]));
                let j = choose|j: int|
                    0 <= j < db.entries@.len() && #[trigger] db.entries@[j].0@ == id_of(ms[i])
                        && db.entries@[j].1 == ms[i];
                lemma_map_of_lookup(db.entries@, j);
            }
        }
        db
    }

    /// Find the index of the entry holding `id`, if any.
    fn find_entry(entries: &Vec<(ManuscriptId, Manuscript)>, id: &ManuscriptId) -> (r: Option<
        usize,
    >)
        ensures
            match r {
                Some(j) => j < entries@.len() && entries@[j as int].0@ == id@,
                None => forall|j: int| 0 <= j < entries@.len() ==> entries@[j].0@ != id@,
            },
    {
        let mut j: usize = 0;
        while j < entries.len()
            invariant
                j <= entries@.len(),
                forall|jj: int| 0 <= jj < j ==> entries@[jj].0@ != id@,
            decreases entries@.len() - j,
        {
            if entries[j].0 == *id {
                return Some(j);
            }
            j += 1;
        }
        None
    }

    /// Look the manuscript stored under `id` up.
    pub fn get(&self, id: &ManuscriptId) -> (r: Option<&Manuscript>)
        ensures
            match r {
                Some(m) => self.map_spec().dom().contains(id@) && *m == self.map_spec()[id@],
                None => !self.map_spec().dom().contains(id@),
            },
    {
        proof {
            use_type_invariant(&*self);
        }
        let mut j: usize = 0;
        while j < self.entries.len()
            invariant
                j <= self.entries@.len(),
                forall|jj: int| 0 <= jj < j ==> self.entries@[jj].0@ != id@,
                self.wf(),
            decreases self.entries@.len() - j,
        {
            if self.entries[j].0 == *id {
                proof {
                    lemma_map_of_lookup(self.entries@, j as int);
                }
                return Some(&self.entries[j].1);
            }
            j += 1;
        }
        proof {
            lemma_map_of_contains(self.entries@, id@);
        }
        None
    }

    /// The number of distinct identities the store holds.
    pub fn len(&self) -> (r: usize)
        ensures
            r == self.map_spec().dom().len(),
    {
        proof {
            use_type_invariant(&*self);
            lemma_map_of_card(self.entries@);
        }
        self.entries.len()
    }

    /// Any identity in the presentation order resolves in the keyed mapping.
    proof fn lemma_order_in_map(self)
        requires
            self.wf(),
        ensures
            forall|i: int|
                0 <= i < self.order_spec().len() ==> self.map_spec().dom().contains(
                    #[trigger] self.order_spec()[i],
                ),
    {
        assert forall|i: int|
            0 <= i < self.order_spec().len() implies self.map_spec().dom().contains(
            #[trigger] self.order_spec()[i],
        ) by {
            reveal(order_covered);
            let j = choose|j: int|
                0 <= j < self.entries@.len() && self.entries@[j].0@ == self.order@[i]@;
            lemma_map_of_lookup(self.entries@, j);
        }
    }

    /// The first identity in presentation order, or nothing if the store is empty.
    pub fn first(&self) -> (r: Option<&ManuscriptId>)
        ensures
            match r {
                Some(p) => self.order_spec().len() > 0 && p@ == self.order_spec()[0]
                    && self.map_spec().dom().contains(p@),
                None => self.order_spec().len() == 0,
            },
    {
        proof {
            use_type_invariant(&*self);
            self.lemma_order_in_map();
        }
        if self.order.len() > 0 {
            Some(&self.order[0])
        } else {
            None
        }
    }

    /// The last identity in presentation order, or nothing if the store is empty.
    pub fn last(&self) -> (r: Option<&ManuscriptId>)
        ensures
            match r {
                Some(p) => self.order_spec().len() > 0 && p@ == self.order_spec()[self.order_spec().len() - 1]
                    && self.map_spec().dom().contains(p@),
                None => self.order_spec().len() == 0,
            },
    {
        proof {
            use_type_invariant(&*self);
            self.lemma_order_in_map();
        }
        if self.order.len() > 0 {
            let k = self.order.len() - 1;
            proof {
                assert(self.order_spec()[k as int] == self.order@[k as int]@);
                assert(self.map_spec().dom().contains(self.order_spec()[k as int]));
            }
            Some(&self.order[k])
        } else {
            None
        }
    }

    /// Find the position of the first occurrence of `id` in the order.
    fn find_first_in_order(&self, id: &ManuscriptId) -> (r: Option<usize>)
        ensures
            match r {
                Some(i) => is_first_occurrence(self.order_spec(), id@, i as int),
                None => !self.order_spec().contains(id@),
            },
    {
        let mut i: usize = 0;
        while i < self.order.len()
            invariant
                i <= self.order@.len(),
                forall|j: int| 0 <= j < i ==> self.order_spec()[j] != id@,
            decreases self.order@.len() - i,
        {
            if self.order[i] == *id {
                return Some(i);
            }
            i += 1;
        }
        proof {
            if self.order_spec().contains(id@) {
                let j = choose|j: int|
                    0 <= j < self.order_spec().len() && self.order_spec()[j] == id@;
            }
        }
        None
    }

    /// The identity immediately before the first occurrence of `id` in
    /// presentation order. If `id` is absent or already first, the first
    /// identity. Nothing only when the store is empty.
    #[verifier::rlimit(30)]
    pub fn previous(&self, id: &ManuscriptId) -> (r: Option<&ManuscriptId>)
        ensures
            match r {
                Some(p) => {
                    &&& self.order_spec().len() > 0
                    &&& forall|i: int|
                        is_first_occurrence(self.order_spec(), id@, i) ==> p@ == if i == 0 {
                            self.order_spec()[0]
                        } else {
                            self.order_spec()[i - 1]
                        }
                    &&& !self.order_spec().contains(id@) ==> p@ == self.order_spec()[0]
                    &&& self.order_spec().contains(p@)
                    &&& self.map_spec().dom().contains(p@)
                },
                None => self.order_spec().len() == 0,
            },
    {
        proof {
            use_type_invariant(&*self);
            self.lemma_order_in_map();
        }
        if self.order.len() == 0 {
            return None;
        }
        let found = self.find_first_in_order(id);
        let k: usize = match found {
            Some(i) => if i == 0 { 0 } else { i - 1 },
            None => 0,
        };
        let p = &self.order[k];
        proof {
            assert(p@ == self.order_spec()[k as int]);
            match found {
                Some(i) => {
                    assert(self.order_spec()[i as int] == id@);
                    assert(self.order_spec().contains(id@));
                    assert forall|i2: int|
                        is_first_occurrence(self.order_spec(), id@, i2) implies p@ == (if i2 == 0 {
                        self.order_spec()[0]
                    } else {
                        self.order_spec()[i2 - 1]
                    }) by {
                        if i2 < i as int {
                            assert(self.order_spec()[i2] == id@);
                        }
                        if i2 > i as int {
                            assert(self.order_spec()[i as int] == id@);
                        }
                        assert(i2 == i as int);
                    }
                }
                None => {
                    assert forall|i2: int|
                        !is_first_occurrence(self.order_spec(), id@, i2) by {
                        if is_first_occurrence(self.order_spec(), id@, i2) {
                            assert(self.order_spec()[i2] == id@);
                            assert(self.order_spec().contains(id@));
                        }
                    }
                }
            }
            assert(self.order_spec().contains(p@));
            assert(self.map_spec().dom().contains(p@));
        }
        Some(p)
    }

    /// The identity immediately after the first occurrence of `id` in
    /// presentation order. If `id` is absent or already last, the last
    /// identity. Nothing only when the store is empty.
    #[verifier::rlimit(30)]
    pub fn next(&self, id: &ManuscriptId) -> (r: Option<&ManuscriptId>)
        ensures
            match r {
                Some(p) => {
                    &&& self.order_spec().len() > 0
                    &&& forall|i: int|
                        is_first_occurrence(self.order_spec(), id@, i) ==> p@ == if i
                            == self.order_spec().len() - 1 {
                            self.order_spec()[self.order_spec().len() - 1]
                        } else {
                            self.order_spec()[i + 1]
                        }
                    &&& !self.order_spec().contains(id@) ==> p@ == self.order_spec()[self.order_spec().len() - 1]
                    &&& self.order_spec().contains(p@)
                    &&& self.map_spec().dom().contains(p@)
                },
                None => self.order_spec().len() == 0,
            },
    {
        proof {
            use_type_invariant(&*self);
            self.lemma_order_in_map();
        }
        if self.order.len() == 0 {
            return None;
        }
        let tail = self.order.len() - 1;
        let found = self.find_first_in_order(id);
        let k: usize = match found {
            Some(i) => if i == tail { tail } else { i + 1 },
            None => tail,
        };
        let p = &self.order[k];
        proof {
            assert(p@ == self.order_spec()[k as int]);
            match found {
                Some(i) => {
                    assert(self.order_spec()[i as int] == id@);
                    assert(self.order_spec().contains(id@));
                    assert forall|i2: int|
                        is_first_occurrence(self.order_spec(), id@, i2) implies p@ == (if i2
                        == self.order_spec().len() - 1 {
                        self.order_spec()[self.order_spec().len() - 1]
                    } else {
                        self.order_spec()[i2 + 1]
                    }) by {
                        if i2 < i as int {
                            assert(self.order_spec()[i2] == id@);
                        }
                        if i2 > i as int {
                            assert(self.order_spec()[i as int] == id@);
                        }
                        assert(i2 == i as int);
                    }
                }
                None => {
                    assert forall|i2: int|
                        !is_first_occurrence(self.order_spec(), id@, i2) by {
                        if is_first_occurrence(self.order_spec(), id@, i2) {
                            assert(self.order_spec()[i2] == id@);
                            assert(self.order_spec().contains(id@));
                        }
                    }
                }
            }
            assert(self.order_spec().contains(p@));
            assert(self.map_spec().dom().contains(p@));
        }
        Some(p)
    }

    /// Start an iteration over the stored pairs in presentation order.
    pub fn iter(&self) -> (r: ManuscriptDatabaseIter<'_>)
        ensures
            r.pos() == 0,
            r.store() == self,
    {
        ManuscriptDatabaseIter { idx: 0, db: self }
    }
}

/// A cursor over a store's pairs in presentation order. Restartable: a fresh
/// cursor replays the same finite sequence.
pub struct ManuscriptDatabaseIter<'a> {
    idx: usize,
    db: &'a ManuscriptDatabase,
}

impl<'a> ManuscriptDatabaseIter<'a> {
    /// How many pairs have been yielded already.
    pub closed spec fn pos(&self) -> int {
        self.idx as int
    }

    /// The store this cursor walks.
    pub closed spec fn store(&self) -> &'a ManuscriptDatabase {
        self.db
    }

    /// Yield the next pair in presentation order: the identity at the current
    /// position and the manuscript stored under it.
    pub fn next(&mut self) -> (r: Option<(&'a ManuscriptId, &'a Manuscript)>)
        ensures
            final(self).store() == old(self).store(),
            match r {
                Some((id, m)) => {
                    &&& old(self).pos() < old(self).store().order_spec().len()
                    &&& id@ == old(self).store().order_spec()[old(self).pos()]
                    &&& old(self).store().map_spec().dom().contains(id@)
                    &&& *m == old(self).store().map_spec()[id@]
                    &&& final(self).pos() == old(self).pos() + 1
                },
                None => {
                    &&& old(self).pos() >= old(self).store().order_spec().len()
                    &&& final(self).pos() == old(self).pos()
                },
            },
    {
        if self.idx < self.db.order.len() {
            let id = &self.db.order[self.idx];
            proof {
                use_type_invariant(self.db);
                self.db.lemma_order_in_map();
                assert(self.db.order_spec()[self.idx as int] == id@);
            }
            match self.db.get(id) {
                Some(m) => {
                    self.idx = self.idx + 1;
                    Some((id, m))
                }
                None => {
                    proof {
                        assert(false);
                    }
                    None
                }
            }
        } else {
            None
        }
    }
}

impl Clone for ManuscriptId {
    fn clone(&self) -> (r: Self)
        ensures
            r@ == self@,
    {
        let mut bytes: Vec<u8> = Vec::with_capacity(self.0.len());
        let mut i: usize = 0;
        while i < self.0.len()
            invariant
                i <= self.0.len(),
                bytes@ == self.0@.take(i as int),
            decreases self.0.len() - i,
        {
            bytes.push(self.0[i]);
            i += 1;
        }
        proof {
            assert(bytes@ =~= self.0@);
        }
        ManuscriptId(bytes)
    }
}

} // verus!
