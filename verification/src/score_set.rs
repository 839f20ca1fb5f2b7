//! A set of item identifiers ordered by score.
//!
//! Each identifier occurs at most once and carries one score. Members are
//! ordered by score, lowest first; members of equal score are ordered by
//! identifier, lowest first. The set offers the four operations the queue is
//! built from: add with a score, membership lookup, removal of the first
//! member, and removal of every member whose score is at most a bound.

use vstd::prelude::*;

verus! {

/// One member of a score-ordered set: an item identifier and its score.
#[derive(Clone, Copy, Debug)]
pub struct Entry {
    pub score: u64,
    pub id: u32,
}

/// Whether the member `id_a` with score `score_a` orders strictly before the
/// member `id_b` with score `score_b`: lower score first, and on equal scores
/// the lower identifier first.
pub open spec fn precedes(score_a: u64, id_a: u32, score_b: u64, id_b: u32) -> bool {
    score_a < score_b || (score_a == score_b && id_a < id_b)
}

/// Decides `precedes` for two entries.
pub fn entry_precedes(a: &Entry, b: &Entry) -> (r: bool)
    ensures
        r == precedes(a.score, a.id, b.score, b.id),
{
    a.score < b.score || (a.score == b.score && a.id < b.id)
}

/// Whether `id` is the first member of `m`: it is a member, and it orders
/// before every other member.
pub open spec fn is_first(m: Map<u32, u64>, id: u32) -> bool {
    &&& m.contains_key(id)
    &&& forall|other: u32|
        m.contains_key(other) && other != id ==> precedes(m[id], id, #[trigger] m[other], other)
}

/// The first member of `m`, if `m` has one.
pub open spec fn first(m: Map<u32, u64>) -> Option<u32> {
    if exists|id: u32| is_first(m, id) {
        Some(choose|id: u32| is_first(m, id))
    } else {
        None
    }
}

/// The members of `m` whose score is at most `bound`.
pub open spec fn due(m: Map<u32, u64>, bound: u64) -> Map<u32, u64> {
    Map::new(|id: u32| m.contains_key(id) && m[id] <= bound, |id: u32| m[id])
}

/// The members of `m` whose score is above `bound`.
pub open spec fn live(m: Map<u32, u64>, bound: u64) -> Map<u32, u64> {
    Map::new(|id: u32| m.contains_key(id) && m[id] > bound, |id: u32| m[id])
}

/// A map has at most one first member.
pub proof fn lemma_first_unique(m: Map<u32, u64>, a: u32, b: u32)
    requires
        is_first(m, a),
        is_first(m, b),
    ensures
        a == b,
{
    if a != b {
        assert(precedes(m[a], a, m[b], b));
    }
}

/// `first` names exactly the member that `is_first` holds of.
pub proof fn lemma_first_is(m: Map<u32, u64>, id: u32)
    requires
        is_first(m, id),
    ensures
        first(m) == Some(id),
{
    let c = choose|c: u32| is_first(m, c);
    lemma_first_unique(m, c, id);
}

/// A map without members has no first member.
pub proof fn lemma_first_of_empty(m: Map<u32, u64>)
    requires
        m.dom() =~= Set::<u32>::empty(),
    ensures
        first(m) is None,
{
}

/// A finite map with at least one member has a first member, and that member
/// belongs to the map.
pub proof fn lemma_first_exists(m: Map<u32, u64>)
    requires
        m.dom().finite(),
        m.dom().len() > 0,
    ensures
        first(m) is Some,
        is_first(m, first(m)->0),
    decreases m.dom().len(),
{
    let x = m.dom().choose();
    let rest = m.remove(x);
    if rest.dom().len() == 0 {
        assert(is_first(m, x));
    } else {
        lemma_first_exists(rest);
        let y = first(rest)->0;
        if precedes(m[x], x, m[y], y) {
            assert forall|other: u32| m.contains_key(other) && other != x implies precedes(
                m[x],
                x,
                #[trigger] m[other],
                other,
            ) by {
                if other != y {
                    assert(precedes(rest[y], y, rest[other], other));
                }
            }
            assert(is_first(m, x));
        } else {
            assert forall|other: u32| m.contains_key(other) && other != y implies precedes(
                m[y],
                y,
                #[trigger] m[other],
                other,
            ) by {
                if other != x {
                    assert(precedes(rest[y], y, rest[other], other));
                }
            }
            assert(is_first(m, y));
        }
    }
}

/// Splitting a finite map at a bound loses no member and counts none twice.
pub proof fn lemma_due_live_partition(m: Map<u32, u64>, bound: u64)
    requires
        m.dom().finite(),
    ensures
        due(m, bound).dom().finite(),
        live(m, bound).dom().finite(),
        due(m, bound).dom().len() + live(m, bound).dom().len() == m.dom().len(),
{
    let d = due(m, bound).dom();
    let l = live(m, bound).dom();
    assert(d.subset_of(m.dom()));
    assert(l.subset_of(m.dom()));
    vstd::set_lib::lemma_set_disjoint_lens(d, l);
    assert(d + l =~= m.dom());
}

spec fn ordered(s: Seq<Entry>) -> bool {
    forall|i: int, j: int|
        0 <= i < j < s.len() ==> precedes(
            (#[trigger] s[i]).score,
            s[i].id,
            (#[trigger] s[j]).score,
            s[j].id,
        )
}

spec fn distinct(s: Seq<Entry>) -> bool {
    forall|i: int, j: int|
        0 <= i < s.len() && 0 <= j < s.len() && i != j ==> (#[trigger] s[i]).id != (
        #[trigger] s[j]).id
}

spec fn has_id(s: Seq<Entry>, id: u32) -> bool {
    exists|i: int| 0 <= i < s.len() && (#[trigger] s[i]).id == id
}

spec fn index_of_id(s: Seq<Entry>, id: u32) -> int {
    choose|i: int| 0 <= i < s.len() && (#[trigger] s[i]).id == id
}

spec fn map_of(s: Seq<Entry>) -> Map<u32, u64> {
    Map::new(|id: u32| has_id(s, id), |id: u32| s[index_of_id(s, id)].score)
}

proof fn lemma_map_of_last(s: Seq<Entry>)
    requires
        s.len() > 0,
    ensures
        map_of(s).dom() =~= map_of(s.drop_last()).dom().insert(s.last().id),
{
    let t = s.drop_last();
    assert forall|id: u32| map_of(s).dom().contains(id) <==> map_of(t).dom().insert(
        s.last().id,
    ).contains(id) by {
        if has_id(s, id) {
            let i = index_of_id(s, id);
            if i < t.len() {
                assert(t[i].id == id);
            }
        }
    }
}

proof fn lemma_map_of_finite(s: Seq<Entry>)
    ensures
        map_of(s).dom().finite(),
    decreases s.len(),
{
    if s.len() == 0 {
        assert(map_of(s).dom() =~= Set::<u32>::empty());
    } else {
        lemma_map_of_finite(s.drop_last());
        lemma_map_of_last(s);
    }
}

proof fn lemma_map_of_len(s: Seq<Entry>)
    requires
        distinct(s),
    ensures
        map_of(s).dom().finite(),
        map_of(s).dom().len() == s.len(),
    decreases s.len(),
{
    if s.len() == 0 {
        assert(map_of(s).dom() =~= Set::<u32>::empty());
    } else {
        let t = s.drop_last();
        lemma_map_of_len(t);
        lemma_map_of_last(s);
    }
}

proof fn lemma_insert(s: Seq<Entry>, k: int, e: Entry)
    requires
        distinct(s),
        !has_id(s, e.id),
        0 <= k <= s.len(),
    ensures
        distinct(s.insert(k, e)),
        map_of(s.insert(k, e)) =~= map_of(s).insert(e.id, e.score),
{
    let t = s.insert(k, e);
    s.insert_ensures(k, e);
    assert forall|id: u32| map_of(t).contains_key(id) <==> map_of(s).insert(
        e.id,
        e.score,
    ).contains_key(id) by {
        if has_id(s, id) {
            let i = index_of_id(s, id);
            if i < k {
                assert(t[i].id == id);
            }
        }
    }
}

proof fn lemma_remove(s: Seq<Entry>, k: int)
    requires
        distinct(s),
        0 <= k < s.len(),
    ensures
        distinct(s.remove(k)),
        !has_id(s.remove(k), s[k].id),
        map_of(s.remove(k)) =~= map_of(s).remove(s[k].id),
        ordered(s) ==> ordered(s.remove(k)),
{
    let t = s.remove(k);
    assert forall|id: u32| map_of(t).contains_key(id) <==> map_of(s).remove(s[k].id).contains_key(
        id,
    ) by {
        if has_id(s, id) && id != s[k].id {
            let a = index_of_id(s, id);
            if a < k {
                assert(t[a].id == id);
            } else {
                assert(t[a - 1] == s[(a - 1) + 1]);
            }
        }
    }
}

proof fn lemma_split(s: Seq<Entry>, k: int, bound: u64)
    requires
        distinct(s),
        ordered(s),
        0 <= k <= s.len(),
        forall|i: int| 0 <= i < k ==> (#[trigger] s[i]).score <= bound,
        forall|i: int| k <= i < s.len() ==> (#[trigger] s[i]).score > bound,
    ensures
        distinct(s.subrange(0, k)),
        distinct(s.subrange(k, s.len() as int)),
        ordered(s.subrange(k, s.len() as int)),
        map_of(s.subrange(0, k)) =~= due(map_of(s), bound),
        map_of(s.subrange(k, s.len() as int)) =~= live(map_of(s), bound),
{
    let lo = s.subrange(0, k);
    let hi = s.subrange(k, s.len() as int);
    assert forall|id: u32| map_of(lo).contains_key(id) <==> due(map_of(s), bound).contains_key(
        id,
    ) by {
        if has_id(s, id) {
            let i = index_of_id(s, id);
            if i < k {
                assert(lo[i].id == id);
            }
        }
    }
    assert forall|id: u32| map_of(hi).contains_key(id) <==> live(map_of(s), bound).contains_key(
        id,
    ) by {
        if has_id(s, id) {
            let i = index_of_id(s, id);
            if i >= k {
                assert(hi[i - k] == s[(i - k) + k]);
            }
        }
    }
}

/// A set of item identifiers, each with one score, kept in order of score.
///
/// The view is the map from each member to its score.
pub struct ScoreSet {
    entries: Vec<Entry>,
}

impl View for ScoreSet {
    type V = Map<u32, u64>;

    closed spec fn view(&self) -> Map<u32, u64> {
        map_of(self.entries@)
    }
}

fn position_of(entries: &Vec<Entry>, id: u32) -> (r: Option<usize>)
    ensures
        match r {
            Some(i) => i < entries.len() && entries[i as int].id == id,
            None => !has_id(entries@, id),
        },
{
    let mut i: usize = 0;
    while i < entries.len()
        invariant
            i <= entries.len(),
            forall|j: int| 0 <= j < i ==> (#[trigger] entries[j]).id != id,
        decreases entries.len() - i,
    {
        if entries[i].id == id {
            return Some(i);
        }
        i += 1;
    }
    None
}

fn insertion_point(entries: &Vec<Entry>, score: u64, id: u32) -> (k: usize)
    requires
        ordered(entries@),
        !has_id(entries@, id),
    ensures
        k <= entries.len(),
        forall|i: int| 0 <= i < k ==> precedes((#[trigger] entries[i]).score, entries[i].id, score, id),
        forall|i: int|
            k <= i < entries.len() ==> precedes(score, id, (#[trigger] entries[i]).score, entries[i].id),
{
    let probe = Entry { score, id };
    let mut k: usize = 0;
    while k < entries.len() && entry_precedes(&entries[k], &probe)
        invariant
            k <= entries.len(),
            probe.score == score,
            probe.id == id,
            forall|i: int|
                0 <= i < k ==> precedes((#[trigger] entries[i]).score, entries[i].id, score, id),
        decreases entries.len() - k,
    {
        k += 1;
    }
    k
}

impl ScoreSet {
    #[verifier::type_invariant]
    spec fn well_formed(&self) -> bool {
        ordered(self.entries@) && distinct(self.entries@)
    }

    /// The members of a set are finitely many.
    pub proof fn lemma_finite(&self)
        ensures
            self@.dom().finite(),
    {
        lemma_map_of_finite(self.entries@);
    }

    /// A set without members.
    pub fn new() -> (s: Self)
        ensures
            s@ == Map::<u32, u64>::empty(),
    {
        ScoreSet { entries: Vec::new() }
    }

    /// The number of members.
    pub fn len(&self) -> (n: usize)
        ensures
            self@.dom().finite(),
            n == self@.dom().len(),
    {
        proof {
            use_type_invariant(self);
            lemma_map_of_len(self.entries@);
        }
        self.entries.len()
    }

    /// Whether the set has no member.
    pub fn is_empty(&self) -> (r: bool)
        ensures
            r == (self@.dom() =~= Set::<u32>::empty()),
    {
        proof {
            use_type_invariant(self);
            lemma_map_of_len(self.entries@);
        }
        self.entries.len() == 0
    }

    /// The score of `id`, if `id` is a member.
    pub fn score_of(&self, id: u32) -> (r: Option<u64>)
        ensures
            r == (if self@.contains_key(id) {
                Some(self@[id])
            } else {
                None
            }),
    {
        proof {
            use_type_invariant(self);
        }
        match position_of(&self.entries, id) {
            Some(i) => Some(self.entries[i].score),
            None => None,
        }
    }

    /// Whether `id` is a member.
    pub fn contains(&self, id: u32) -> (r: bool)
        ensures
            r == self@.contains_key(id),
    {
        self.score_of(id).is_some()
    }

    /// Makes `id` a member with the given score. Where `id` was a member
    /// already, its score is replaced. Returns whether `id` is a new member.
    pub fn add(&mut self, id: u32, score: u64) -> (fresh: bool)
        ensures
            final(self)@ == old(self)@.insert(id, score),
            fresh == !old(self)@.contains_key(id),
    {
        proof {
            use_type_invariant(&*self);
        }
        let mut entries: Vec<Entry> = Vec::new();
        std::mem::swap(&mut entries, &mut self.entries);
        let ghost before = entries@;
        let found = position_of(&entries, id);
        if let Some(i) = found {
            proof {
                lemma_remove(before, i as int);
            }
            entries.remove(i);
        }
        let ghost without = entries@;
        let k = insertion_point(&entries, score, id);
        let e = Entry { score, id };
        proof {
            lemma_insert(without, k as int, e);
        }
        entries.insert(k, e);
        self.entries = entries;
        found.is_none()
    }

    /// Removes the first member and returns it with its score, or returns
    /// `None` and changes nothing where the set has no member.
    pub fn pop_min(&mut self) -> (r: Option<Entry>)
        ensures
            match r {
                Some(e) => {
                    &&& is_first(old(self)@, e.id)
                    &&& old(self)@[e.id] == e.score
                    &&& final(self)@ == old(self)@.remove(e.id)
                },
                None => {
                    &&& old(self)@.dom() =~= Set::<u32>::empty()
                    &&& final(self)@ == old(self)@
                },
            },
    {
        proof {
            use_type_invariant(&*self);
        }
        if self.entries.len() == 0 {
            return None;
        }
        let mut entries: Vec<Entry> = Vec::new();
        std::mem::swap(&mut entries, &mut self.entries);
        let ghost before = entries@;
        proof {
            lemma_remove(before, 0);
        }
        let e = entries.remove(0);
        self.entries = entries;
        Some(e)
    }

    /// Removes every member whose score is at most `bound` and returns how
    /// many were removed.
    pub fn remove_up_to(&mut self, bound: u64) -> (n: usize)
        ensures
            final(self)@ == live(old(self)@, bound),
            due(old(self)@, bound).dom().finite(),
            n == due(old(self)@, bound).dom().len(),
    {
        proof {
            use_type_invariant(&*self);
        }
        let mut entries: Vec<Entry> = Vec::new();
        std::mem::swap(&mut entries, &mut self.entries);
        let ghost before = entries@;
        let mut k: usize = 0;
        while k < entries.len() && entries[k].score <= bound
            invariant
                k <= entries.len(),
                entries@ == before,
                forall|i: int| 0 <= i < k ==> (#[trigger] entries[i]).score <= bound,
            decreases entries.len() - k,
        {
            k += 1;
        }
        proof {
            lemma_split(before, k as int, bound);
            lemma_map_of_len(before.subrange(0, k as int));
        }
        let kept = entries.split_off(k);
        self.entries = kept;
        k
    }
}

} // verus!
