//! A map keyed by sessions.

use vstd::prelude::*;

use crate::ids::SessionId;

verus! {

/// A map from sessions to values.
#[derive(Debug)]
pub struct SessionMap<T> {
    entries: Vec<(SessionId, T)>,
}

/// Whether no two entries are of the same session.
pub open spec fn sessions_distinct<T>(entries: Seq<(SessionId, T)>) -> bool {
    forall|i: int, j: int|
        0 <= i < j < entries.len() ==> (#[trigger] entries[i]).0 != (#[trigger] entries[j]).0
}

/// Whether some entry is of a session.
pub open spec fn has_session<T>(entries: Seq<(SessionId, T)>, id: SessionId) -> bool {
    exists|i: int| 0 <= i < entries.len() && (#[trigger] entries[i]).0 == id
}

/// The position of the entry of a session.
pub open spec fn session_at<T>(entries: Seq<(SessionId, T)>, id: SessionId) -> int {
    choose|i: int| 0 <= i < entries.len() && (#[trigger] entries[i]).0 == id
}

/// The map that a list of entries stands for.
pub open spec fn sessions_map<T>(entries: Seq<(SessionId, T)>) -> Map<SessionId, T> {
    Map::new(|id: SessionId| has_session(entries, id), |id: SessionId| entries[session_at(entries, id)].1)
}

/// Each of distinct entries is the one of its session.
pub proof fn lemma_session_once<T>(entries: Seq<(SessionId, T)>, i: int)
    requires
        sessions_distinct(entries),
        0 <= i < entries.len(),
    ensures
        has_session(entries, entries[i].0),
        session_at(entries, entries[i].0) == i,
        sessions_map(entries).dom().contains(entries[i].0),
        sessions_map(entries)[entries[i].0] == entries[i].1,
{
    assert(entries[i].0 == entries[i].0);
    let j = session_at(entries, entries[i].0);
    assert(entries[j].0 == entries[i].0);
}

/// The sessions of distinct entries, as many as there are entries.
proof fn lemma_session_count<T>(entries: Seq<(SessionId, T)>)
    requires
        sessions_distinct(entries),
    ensures
        sessions_map(entries).dom().finite(),
        sessions_map(entries).dom().len() == entries.len(),
    decreases entries.len(),
{
    let dom = sessions_map(entries).dom();
    if entries.len() == 0 {
        assert(dom =~= Set::empty());
    } else {
        let rest = entries.drop_last();
        let last = entries.last().0;
        lemma_session_count(rest);
        assert(entries[entries.len() - 1].0 == last);
        assert forall|id: SessionId| dom.contains(id) <==> sessions_map(rest).dom().insert(
            last,
        ).contains(id) by {
            if has_session(entries, id) && id != last {
                let i = session_at(entries, id);
                assert(rest[i].0 == id);
            }
            if has_session(rest, id) {
                let i = session_at(rest, id);
                assert(entries[i].0 == id);
            }
        }
        assert(dom =~= sessions_map(rest).dom().insert(last));
        assert(!sessions_map(rest).dom().contains(last)) by {
            if has_session(rest, last) {
                let i = session_at(rest, last);
                assert(entries[i].0 != entries[entries.len() - 1].0);
            }
        }
    }
}

impl<T> View for SessionMap<T> {
    type V = Map<SessionId, T>;

    open spec fn view(&self) -> Map<SessionId, T> {
        sessions_map(self.pairs())
    }
}

impl<T> SessionMap<T> {
    #[verifier::type_invariant]
    spec fn distinct(self) -> bool {
        sessions_distinct(self.entries@)
    }

    /// The entries.
    pub closed spec fn pairs(&self) -> Seq<(SessionId, T)> {
        self.entries@
    }

    /// An empty map.
    pub fn new() -> (r: Self)
        ensures
            r@ == Map::<SessionId, T>::empty(),
    {
        let entries: Vec<(SessionId, T)> = Vec::new();
        assert(sessions_map(entries@) =~= Map::<SessionId, T>::empty());
        SessionMap { entries }
    }

    /// The number of sessions.
    pub fn len(&self) -> (n: usize)
        ensures
            self@.dom().finite(),
            n == self@.dom().len(),
            n == self.pairs().len(),
            sessions_distinct(self.pairs()),
    {
        proof {
            use_type_invariant(self);
            lemma_session_count(self.entries@);
        }
        self.entries.len()
    }

    /// The entry at a position.
    pub fn entry(&self, i: usize) -> (r: &(SessionId, T))
        requires
            i < self.pairs().len(),
        ensures
            *r == self.pairs()[i as int],
            self@.dom().contains(r.0),
            self@[r.0] == r.1,
    {
        proof {
            use_type_invariant(self);
            lemma_session_once(self.entries@, i as int);
        }
        &self.entries[i]
    }

    /// The position of the entry of a session.
    fn position(&self, id: SessionId) -> (r: Option<usize>)
        ensures
            match r {
                Some(i) => i < self.entries@.len() && self.entries@[i as int].0 == id
                    && self@.dom().contains(id) && self@[id] == self.entries@[i as int].1,
                None => !self@.dom().contains(id) && forall|j: int|
                    0 <= j < self.entries@.len() ==> (#[trigger] self.entries@[j]).0 != id,
            },
    {
        proof {
            use_type_invariant(self);
        }
        let mut i: usize = 0;
        while i < self.entries.len()
            invariant
                i <= self.entries@.len(),
                sessions_distinct(self.entries@),
                forall|j: int| 0 <= j < i ==> (#[trigger] self.entries@[j]).0 != id,
            decreases self.entries@.len() - i,
        {
            if self.entries[i].0 == id {
                proof {
                    lemma_session_once(self.entries@, i as int);
                }
                return Some(i);
            }
            i = i + 1;
        }
        None
    }

    /// The value of a session.
    pub fn get(&self, id: SessionId) -> (r: Option<&T>)
        ensures
            match r {
                Some(v) => self@.dom().contains(id) && *v == self@[id],
                None => !self@.dom().contains(id),
            },
    {
        match self.position(id) {
            Some(i) => Some(&self.entries[i].1),
            None => None,
        }
    }

    /// Stores the value of a session, in place of what was stored for it.
    pub fn insert(&mut self, id: SessionId, value: T)
        ensures
            final(self)@ == old(self)@.insert(id, value),
    {
        proof {
            use_type_invariant(&*self);
        }
        let ghost before = self.entries@;
        let at = self.position(id);
        let mut entries: Vec<(SessionId, T)> = Vec::new();
        std::mem::swap(&mut entries, &mut self.entries);
        match at {
            Some(i) => {
                let e = &mut entries[i];
                e.1 = value;
            },
            None => entries.push((id, value)),
        }
        proof {
            let after = entries@;
            let m = sessions_map(before).insert(id, value);
            assert forall|i: int| 0 <= i < before.len() implies after[i].0 == before[i].0 && (
            before[i].0 == id || after[i] == before[i]) by {}
            let k = match at {
                Some(i) => i as int,
                None => before.len() as int,
            };
            assert(after[k] == (id, value));
            assert forall|i: int| 0 <= i < after.len() && i != k implies after[i] == before[i] by {}
            assert(sessions_distinct(after));
            assert forall|other: SessionId| has_session(after, other) <==> m.dom().contains(
                other,
            ) by {
                if has_session(after, other) && other != id {
                    let i = session_at(after, other);
                    assert(before[i].0 == other);
                }
                if has_session(before, other) {
                    let i = session_at(before, other);
                    assert(after[i].0 == other);
                }
            }
            assert forall|other: SessionId| has_session(after, other) implies sessions_map(
                after,
            )[other] == m[other] by {
                let i = session_at(after, other);
                lemma_session_once(after, i);
                if i != k {
                    lemma_session_once(before, i);
                }
            }
            assert(sessions_map(after) =~= m);
        }
        self.entries = entries;
    }

    /// Removes a session and gives the value that was stored for it.
    pub fn remove(&mut self, id: SessionId) -> (r: Option<T>)
        ensures
            final(self)@ == old(self)@.remove(id),
            match r {
                Some(v) => old(self)@.dom().contains(id) && v == old(self)@[id],
                None => !old(self)@.dom().contains(id),
            },
    {
        proof {
            use_type_invariant(&*self);
        }
        let ghost before = self.entries@;
        let at: usize = match self.position(id) {
            Some(i) => i,
            None => {
                assert(self@ =~= old(self)@.remove(id));
                return None;
            },
        };
        let mut entries: Vec<(SessionId, T)> = Vec::new();
        std::mem::swap(&mut entries, &mut self.entries);
        let removed = entries.remove(at);
        proof {
            let after = entries@;
            let m = sessions_map(before).remove(id);
            assert(forall|i: int| 0 <= i < at ==> after[i] == before[i]);
            assert(forall|i: int| at <= i < after.len() ==> after[i] == before[i + 1]);
            assert(sessions_distinct(after)) by {
                assert forall|i: int, j: int| 0 <= i < j < after.len() implies (#[trigger] after[i]).0
                    != (#[trigger] after[j]).0 by {
                    let i0 = if i < at { i } else { i + 1 };
                    let j0 = if j < at { j } else { j + 1 };
                    assert(before[i0].0 != before[j0].0);
                }
            }
            assert forall|other: SessionId| has_session(after, other) <==> m.dom().contains(
                other,
            ) by {
                if has_session(after, other) {
                    let i = session_at(after, other);
                    let i0 = if i < at { i } else { i + 1 };
                    assert(before[i0].0 == other);
                    assert(before[i0].0 != before[at as int].0);
                }
                if has_session(before, other) && other != id {
                    let i = session_at(before, other);
                    let i1 = if i < at { i } else { i - 1 };
                    assert(after[i1].0 == other);
                }
            }
            assert forall|other: SessionId| has_session(after, other) implies sessions_map(
                after,
            )[other] == m[other] by {
                let i = session_at(after, other);
                lemma_session_once(after, i);
                lemma_session_once(before, if i < at { i } else { i + 1 });
            }
            assert(sessions_map(after) =~= m);
        }
        self.entries = entries;
        Some(removed.1)
    }
}

/// A set of sessions.
#[derive(Debug)]
pub struct SessionSet {
    members: SessionMap<()>,
}

impl View for SessionSet {
    type V = Set<SessionId>;

    closed spec fn view(&self) -> Set<SessionId> {
        self.members@.dom()
    }
}

impl SessionSet {
    /// An empty set.
    pub fn new() -> (r: Self)
        ensures
            r@ == Set::<SessionId>::empty(),
    {
        let r = SessionSet { members: SessionMap::new() };
        assert(r@ =~= Set::<SessionId>::empty());
        r
    }

    /// Whether a session is in the set.
    pub fn contains(&self, id: SessionId) -> (r: bool)
        ensures
            r == self@.contains(id),
    {
        self.members.get(id).is_some()
    }

    /// Puts a session into the set.
    pub fn insert(&mut self, id: SessionId)
        ensures
            final(self)@ == old(self)@.insert(id),
    {
        self.members.insert(id, ());
        assert(self@ =~= old(self)@.insert(id));
    }

    /// Takes a session out of the set and says whether it was there.
    pub fn remove(&mut self, id: SessionId) -> (r: bool)
        ensures
            final(self)@ == old(self)@.remove(id),
            r == old(self)@.contains(id),
    {
        let r = self.members.remove(id).is_some();
        assert(self@ =~= old(self)@.remove(id));
        r
    }

    /// The sessions in the set, each of them once.
    pub fn to_vec(&self) -> (r: Vec<SessionId>)
        ensures
            r@.no_duplicates(),
            r@.to_set() == self@,
    {
        let n: usize = self.members.len();
        let ghost pairs = self.members.pairs();
        let mut r: Vec<SessionId> = Vec::new();
        let mut i: usize = 0;
        while i < n
            invariant
                i <= n,
                n == pairs.len(),
                pairs == self.members.pairs(),
                r@.len() == i,
                forall|j: int| 0 <= j < i ==> #[trigger] r@[j] == pairs[j].0,
            decreases n - i,
        {
            r.push(self.members.entry(i).0);
            i = i + 1;
        }
        proof {
            assert forall|id: SessionId| #[trigger] r@.to_set().contains(id) <==> self@.contains(
                id,
            ) by {
                if r@.contains(id) {
                    let j = choose|j: int| 0 <= j < r@.len() && r@[j] == id;
                    lemma_session_once(pairs, j);
                }
                if self@.contains(id) {
                    let j = session_at(pairs, id);
                    assert(r@[j] == id);
                }
            }
            assert(r@.to_set() =~= self@);
        }
        r
    }
}

// ---------------------------------------------------------------------------
// Laws
// ---------------------------------------------------------------------------
/// What was stored under a session is found under it until it is removed, and
/// what other sessions have stays.
pub proof fn stored_values_are_found<T>(
    map: &mut SessionMap<T>,
    id: SessionId,
    value: T,
    stored: &SessionMap<T>,
    wanted: SessionId,
    found: Option<&T>,
)
    requires
        call_ensures(SessionMap::<T>::insert, (map, id, value), ()),
        stored@ == final(map)@,
        call_ensures(SessionMap::<T>::get, (stored, wanted), found),
    ensures
        wanted == id ==> found == Some(&value),
        wanted != id ==> (found is Some <==> old(map)@.dom().contains(wanted)),
        wanted != id ==> (found matches Some(v) ==> *v == old(map)@[wanted]),
{
}

/// What is removed is handed back and found no more.
pub proof fn removed_values_are_handed_back<T>(
    map: &mut SessionMap<T>,
    id: SessionId,
    removed: Option<T>,
    left: &SessionMap<T>,
    wanted: SessionId,
    found: Option<&T>,
)
    requires
        call_ensures(SessionMap::<T>::remove, (map, id), removed),
        left@ == final(map)@,
        call_ensures(SessionMap::<T>::get, (left, wanted), found),
    ensures
        removed is Some <==> old(map)@.dom().contains(id),
        removed matches Some(v) ==> v == old(map)@[id],
        wanted == id ==> found is None,
        wanted != id ==> (found is Some <==> old(map)@.dom().contains(wanted)),
{
}

/// A session that was put into a set is in it until it is taken out.
pub proof fn members_stay_until_taken_out(
    set: &mut SessionSet,
    id: SessionId,
    with: &SessionSet,
    other: SessionId,
    there: bool,
    without: &mut SessionSet,
    taken: bool,
)
    requires
        call_ensures(SessionSet::insert, (set, id), ()),
        with@ == final(set)@,
        call_ensures(SessionSet::contains, (with, other), there),
        old(without)@ == final(set)@,
        call_ensures(SessionSet::remove, (without, id), taken),
    ensures
        there <==> other == id || old(set)@.contains(other),
        taken,
        !final(without)@.contains(id),
        other != id ==> (final(without)@.contains(other) <==> old(set)@.contains(other)),
{
}

} // verus!
