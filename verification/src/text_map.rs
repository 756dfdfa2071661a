//! An ordered map with text keys.

use vstd::prelude::*;

use crate::text::to_chars;

verus! {

/// Whether `a` comes before `b` in dictionary order of their characters.
pub open spec fn text_less(a: Seq<char>, b: Seq<char>) -> bool
    decreases a.len(),
{
    if b.len() == 0 {
        false
    } else if a.len() == 0 {
        true
    } else if a[0] == b[0] {
        text_less(a.skip(1), b.skip(1))
    } else {
        a[0] < b[0]
    }
}

/// No text comes before itself.
pub proof fn lemma_less_irreflexive(a: Seq<char>)
    ensures
        !text_less(a, a),
    decreases a.len(),
{
    if a.len() > 0 {
        lemma_less_irreflexive(a.skip(1));
    }
}

/// The dictionary order is transitive.
pub proof fn lemma_less_transitive(a: Seq<char>, b: Seq<char>, c: Seq<char>)
    requires
        text_less(a, b),
        text_less(b, c),
    ensures
        text_less(a, c),
    decreases a.len(),
{
    if a.len() > 0 && a[0] == b[0] && b[0] == c[0] {
        lemma_less_transitive(a.skip(1), b.skip(1), c.skip(1));
    }
}

/// Of two different texts one comes before the other.
pub proof fn lemma_less_total(a: Seq<char>, b: Seq<char>)
    requires
        a != b,
    ensures
        text_less(a, b) || text_less(b, a),
    decreases a.len(),
{
    if a.len() == 0 && b.len() == 0 {
        assert(a =~= b);
    } else if a.len() > 0 && b.len() > 0 && a[0] == b[0] {
        if a.skip(1) == b.skip(1) {
            assert(a =~= seq![a[0]] + a.skip(1));
            assert(b =~= seq![b[0]] + b.skip(1));
        }
        lemma_less_total(a.skip(1), b.skip(1));
    }
}

/// How one text stands to another in dictionary order.
#[derive(Clone, Copy, Debug, PartialEq, Eq, Structural)]
pub enum TextOrder {
    Before,
    Same,
    After,
}

/// How `a` stands to `b` in dictionary order.
pub fn order_text(a: &str, b: &str) -> (r: TextOrder)
    ensures
        r == TextOrder::Before <==> text_less(a@, b@),
        r == TextOrder::Same <==> a@ == b@,
        r == TextOrder::After <==> text_less(b@, a@),
{
    let x = to_chars(a);
    let y = to_chars(b);
    proof {
        lemma_less_irreflexive(a@);
        if text_less(a@, b@) && text_less(b@, a@) {
            lemma_less_transitive(a@, b@, a@);
        }
        if a@ != b@ {
            lemma_less_total(a@, b@);
        }
        assert(a@.skip(0) =~= a@);
        assert(b@.skip(0) =~= b@);
    }
    let mut i: usize = 0;
    while i < x.len() && i < y.len() && x[i] == y[i]
        invariant
            x@ == a@,
            y@ == b@,
            i <= x@.len(),
            i <= y@.len(),
            x@.take(i as int) == y@.take(i as int),
            text_less(a@, b@) == text_less(x@.skip(i as int), y@.skip(i as int)),
            text_less(b@, a@) == text_less(y@.skip(i as int), x@.skip(i as int)),
        decreases x@.len() - i,
    {
        let ghost p = x@.skip(i as int);
        let ghost q = y@.skip(i as int);
        assert(p.skip(1) =~= x@.skip(i + 1));
        assert(q.skip(1) =~= y@.skip(i + 1));
        assert(p[0] == q[0]);
        assert(x@.take(i + 1) =~= x@.take(i as int).push(x@[i as int]));
        assert(y@.take(i + 1) =~= y@.take(i as int).push(y@[i as int]));
        i = i + 1;
    }
    let ghost p = x@.skip(i as int);
    let ghost q = y@.skip(i as int);
    if i == x.len() && i == y.len() {
        assert(x@.take(i as int) =~= x@);
        assert(y@.take(i as int) =~= y@);
        TextOrder::Same
    } else if i == x.len() {
        assert(text_less(p, q));
        TextOrder::Before
    } else if i == y.len() {
        assert(text_less(q, p));
        TextOrder::After
    } else if x[i] < y[i] {
        assert(p[0] == x@[i as int] && q[0] == y@[i as int]);
        assert(text_less(p, q));
        TextOrder::Before
    } else {
        assert(p[0] == x@[i as int] && q[0] == y@[i as int]);
        assert(text_less(q, p));
        TextOrder::After
    }
}

/// A map from text to values whose entries stand in dictionary order of their keys.
#[derive(Debug, PartialEq, Eq)]
pub struct TextMap<V> {
    entries: Vec<(String, V)>,
}

/// Whether the keys of a list of entries stand in strict dictionary order.
pub open spec fn keys_ordered<V>(entries: Seq<(String, V)>) -> bool {
    forall|i: int, j: int|
        0 <= i < j < entries.len() ==> text_less(#[trigger] entries[i].0@, #[trigger] entries[j].0@)
}

/// Whether some entry has the given key.
pub open spec fn has_key<V>(entries: Seq<(String, V)>, key: Seq<char>) -> bool {
    exists|i: int| 0 <= i < entries.len() && (#[trigger] entries[i]).0@ == key
}

/// The position of the entry with the given key.
pub open spec fn key_at<V>(entries: Seq<(String, V)>, key: Seq<char>) -> int {
    choose|i: int| 0 <= i < entries.len() && (#[trigger] entries[i]).0@ == key
}

/// The map that a list of entries stands for.
pub open spec fn entries_map<V>(entries: Seq<(String, V)>) -> Map<Seq<char>, V> {
    Map::new(|key: Seq<char>| has_key(entries, key), |key: Seq<char>| entries[key_at(entries, key)].1)
}

/// Ordered entries have each key once.
pub proof fn lemma_key_once<V>(entries: Seq<(String, V)>, i: int)
    requires
        keys_ordered(entries),
        0 <= i < entries.len(),
    ensures
        has_key(entries, entries[i].0@),
        key_at(entries, entries[i].0@) == i,
        entries_map(entries).dom().contains(entries[i].0@),
        entries_map(entries)[entries[i].0@] == entries[i].1,
{
    let key = entries[i].0@;
    assert(entries[i].0@ == key);
    let j = key_at(entries, key);
    lemma_less_irreflexive(key);
    if i < j {
        assert(text_less(entries[i].0@, entries[j].0@));
    } else if j < i {
        assert(text_less(entries[j].0@, entries[i].0@));
    }
}

/// Ordered entries have as many keys as there are entries.
pub proof fn lemma_key_count<V>(entries: Seq<(String, V)>)
    requires
        keys_ordered(entries),
    ensures
        entries_map(entries).dom().finite(),
        entries_map(entries).dom().len() == entries.len(),
    decreases entries.len(),
{
    let dom = entries_map(entries).dom();
    if entries.len() == 0 {
        assert(dom =~= Set::empty());
    } else {
        let rest = entries.drop_last();
        let last = entries.last().0@;
        assert(keys_ordered(rest)) by {
            assert forall|i: int, j: int| 0 <= i < j < rest.len() implies text_less(
                #[trigger] rest[i].0@,
                #[trigger] rest[j].0@,
            ) by {
                assert(text_less(entries[i].0@, entries[j].0@));
            }
        }
        lemma_key_count(rest);
        lemma_key_once(entries, entries.len() - 1);
        assert forall|key: Seq<char>| dom.contains(key) <==> entries_map(rest).dom().insert(
            last,
        ).contains(key) by {
            if has_key(entries, key) && key != last {
                let i = key_at(entries, key);
                assert(rest[i].0@ == key);
            }
            if has_key(rest, key) {
                let i = key_at(rest, key);
                assert(entries[i].0@ == key);
            }
        }
        assert(dom =~= entries_map(rest).dom().insert(last));
        assert(!has_key(rest, last)) by {
            if has_key(rest, last) {
                let i = key_at(rest, last);
                lemma_less_irreflexive(last);
                assert(text_less(entries[i].0@, entries[entries.len() - 1].0@));
            }
        }
    }
}

impl<V> View for TextMap<V> {
    type V = Map<Seq<char>, V>;

    open spec fn view(&self) -> Map<Seq<char>, V> {
        entries_map(self.pairs())
    }
}

impl<V> TextMap<V> {
    #[verifier::type_invariant]
    spec fn ordered(self) -> bool {
        keys_ordered(self.entries@)
    }

    /// The entries, in dictionary order of their keys.
    pub closed spec fn pairs(&self) -> Seq<(String, V)> {
        self.entries@
    }

    /// An empty map.
    pub fn new() -> (r: Self)
        ensures
            r@ == Map::<Seq<char>, V>::empty(),
            r.pairs() == Seq::<(String, V)>::empty(),
    {
        let entries: Vec<(String, V)> = Vec::new();
        assert(entries_map(entries@) =~= Map::<Seq<char>, V>::empty());
        TextMap { entries }
    }

    /// The number of entries.
    pub fn len(&self) -> (n: usize)
        ensures
            n == self.pairs().len(),
            keys_ordered(self.pairs()),
    {
        proof {
            use_type_invariant(self);
        }
        self.entries.len()
    }

    /// The entry at a position in the order of the keys.
    pub fn entry(&self, i: usize) -> (r: &(String, V))
        requires
            i < self.pairs().len(),
        ensures
            *r == self.pairs()[i as int],
    {
        &self.entries[i]
    }

    /// Where the key stands or would stand: every earlier key comes before it.
    fn position(&self, key: &str) -> (r: (usize, bool))
        ensures
            r.0 <= self.entries@.len(),
            r.1 <==> self@.dom().contains(key@),
            r.1 ==> r.0 < self.entries@.len() && self.entries@[r.0 as int].0@ == key@
                && self@[key@] == self.entries@[r.0 as int].1,
            forall|j: int| 0 <= j < r.0 ==> text_less(#[trigger] self.entries@[j].0@, key@),
            !r.1 ==> forall|j: int|
                r.0 <= j < self.entries@.len() ==> text_less(key@, #[trigger] self.entries@[j].0@),
    {
        proof {
            use_type_invariant(self);
        }
        let mut i: usize = 0;
        while i < self.entries.len()
            invariant
                keys_ordered(self.entries@),
                i <= self.entries@.len(),
                forall|j: int| 0 <= j < i ==> text_less(#[trigger] self.entries@[j].0@, key@),
            decreases self.entries@.len() - i,
        {
            match order_text(self.entries[i].0.as_str(), key) {
                TextOrder::Before => {
                    i = i + 1;
                },
                TextOrder::Same => {
                    proof {
                        lemma_key_once(self.entries@, i as int);
                    }
                    return (i, true);
                },
                TextOrder::After => {
                    assert forall|j: int| i <= j < self.entries@.len() implies text_less(
                        key@,
                        #[trigger] self.entries@[j].0@,
                    ) by {
                        if i < j {
                            lemma_less_transitive(
                                key@,
                                self.entries@[i as int].0@,
                                self.entries@[j].0@,
                            );
                        }
                    }
                    assert(!has_key(self.entries@, key@)) by {
                        lemma_less_irreflexive(key@);
                    }
                    return (i, false);
                },
            }
        }
        assert(!has_key(self.entries@, key@)) by {
            lemma_less_irreflexive(key@);
        }
        (i, false)
    }

    /// The value stored under a key.
    pub fn get(&self, key: &str) -> (r: Option<&V>)
        ensures
            match r {
                Some(v) => self@.dom().contains(key@) && *v == self@[key@],
                None => !self@.dom().contains(key@),
            },
    {
        let (at, found) = self.position(key);
        if found {
            Some(&self.entries[at].1)
        } else {
            None
        }
    }

    /// Stores a value under a key, in place of what was stored there.
    pub fn insert(&mut self, key: String, value: V)
        ensures
            final(self)@ == old(self)@.insert(key@, value),
    {
        proof {
            use_type_invariant(&*self);
        }
        let ghost before = self.entries@;
        let (at, found) = self.position(key.as_str());
        let mut entries: Vec<(String, V)> = Vec::new();
        std::mem::swap(&mut entries, &mut self.entries);
        let ghost k = key@;
        if found {
            let e = &mut entries[at];
            e.1 = value;
        } else {
            entries.insert(at, (key, value));
        }
        proof {
            lemma_less_irreflexive(k);
            let after = entries@;
            if found {
                assert(forall|i: int| 0 <= i < after.len() ==> after[i].0@ == before[i].0@);
            } else {
                assert(forall|i: int| 0 <= i < at ==> after[i] == before[i]);
                assert(forall|i: int| at < i < after.len() ==> after[i] == before[i - 1]);
            }
            assert(keys_ordered(after)) by {
                assert forall|i: int, j: int| 0 <= i < j < after.len() implies text_less(
                    #[trigger] after[i].0@,
                    #[trigger] after[j].0@,
                ) by {
                    if !found {
                        if i < at && j > at {
                            assert(text_less(before[i].0@, before[j - 1].0@));
                        } else if i > at {
                            assert(text_less(before[i - 1].0@, before[j - 1].0@));
                        } else if j < at {
                            assert(text_less(before[i].0@, before[j].0@));
                        }
                    }
                }
            }
            assert(after[at as int].0@ == k && after[at as int].1 == value);
            let m = entries_map(before).insert(k, value);
            assert forall|key2: Seq<char>| has_key(after, key2) <==> m.dom().contains(key2) by {
                if has_key(after, key2) {
                    let i = key_at(after, key2);
                    if i != at {
                        let i0 = if found || i < at { i } else { i - 1 };
                        assert(before[i0].0@ == key2);
                    }
                }
                if has_key(before, key2) {
                    let i = key_at(before, key2);
                    let i1 = if found || i < at { i } else { i + 1 };
                    assert(after[i1].0@ == key2);
                }
                if key2 == k {
                    assert(after[at as int].0@ == key2);
                }
            }
            assert forall|key2: Seq<char>| has_key(after, key2) implies entries_map(after)[key2]
                == m[key2] by {
                let i = key_at(after, key2);
                lemma_key_once(after, i);
                if i == at {
                } else {
                    let i0 = if found || i < at { i } else { i - 1 };
                    lemma_key_once(before, i0);
                    if key2 == k {
                        lemma_key_once(after, at as int);
                    }
                }
            }
            assert(entries_map(after) =~= m);
        }
        self.entries = entries;
    }

    /// Removes a key and its value.
    pub fn remove(&mut self, key: &str)
        ensures
            final(self)@ == old(self)@.remove(key@),
    {
        proof {
            use_type_invariant(&*self);
        }
        let ghost before = self.entries@;
        let (at, found) = self.position(key);
        if !found {
            assert(self@ =~= self@.remove(key@));
            return;
        }
        let mut entries: Vec<(String, V)> = Vec::new();
        std::mem::swap(&mut entries, &mut self.entries);
        let _gone = entries.remove(at);
        proof {
            let after = entries@;
            let k = key@;
            lemma_less_irreflexive(k);
            assert(forall|i: int| 0 <= i < at ==> after[i] == before[i]);
            assert(forall|i: int| at <= i < after.len() ==> after[i] == before[i + 1]);
            assert(keys_ordered(after)) by {
                assert forall|i: int, j: int| 0 <= i < j < after.len() implies text_less(
                    #[trigger] after[i].0@,
                    #[trigger] after[j].0@,
                ) by {
                    let i0 = if i < at { i } else { i + 1 };
                    let j0 = if j < at { j } else { j + 1 };
                    assert(text_less(before[i0].0@, before[j0].0@));
                }
            }
            let m = entries_map(before).remove(k);
            assert forall|key2: Seq<char>| has_key(after, key2) <==> m.dom().contains(key2) by {
                if has_key(after, key2) {
                    let i = key_at(after, key2);
                    let i0 = if i < at { i } else { i + 1 };
                    assert(before[i0].0@ == key2);
                    lemma_key_once(before, i0);
                    lemma_key_once(before, at as int);
                }
                if has_key(before, key2) && key2 != k {
                    let i = key_at(before, key2);
                    let i1 = if i < at { i } else { i - 1 };
                    assert(after[i1].0@ == key2);
                }
            }
            assert forall|key2: Seq<char>| has_key(after, key2) implies entries_map(after)[key2]
                == m[key2] by {
                let i = key_at(after, key2);
                lemma_key_once(after, i);
                let i0 = if i < at { i } else { i + 1 };
                lemma_key_once(before, i0);
            }
            assert(entries_map(after) =~= m);
        }
        self.entries = entries;
    }

    /// The map of entries whose keys stand in order.
    pub fn from_entries(entries: Vec<(String, V)>) -> (r: Self)
        requires
            keys_ordered(entries@),
        ensures
            r.pairs() == entries@,
            r@ == entries_map(entries@),
    {
        TextMap { entries }
    }

    /// The number of keys.
    pub fn count(&self) -> (n: usize)
        ensures
            self@.dom().finite(),
            n == self@.dom().len(),
    {
        proof {
            use_type_invariant(self);
            lemma_key_count(self.entries@);
        }
        self.entries.len()
    }
}

impl<V: Copy> TextMap<V> {
    /// The entries, in dictionary order of their keys.
    pub fn to_entries(&self) -> (r: Vec<(String, V)>)
        ensures
            r@ == self.pairs(),
            keys_ordered(r@),
    {
        proof {
            use_type_invariant(self);
        }
        let mut r: Vec<(String, V)> = Vec::new();
        let mut i: usize = 0;
        while i < self.entries.len()
            invariant
                i <= self.entries@.len(),
                r@ == self.entries@.take(i as int),
            decreases self.entries@.len() - i,
        {
            let e = &self.entries[i];
            r.push((e.0.clone(), e.1));
            assert(r@ =~= self.entries@.take(i + 1));
            i = i + 1;
        }
        assert(r@ =~= self.entries@);
        r
    }
}

// ---------------------------------------------------------------------------
// Laws
// ---------------------------------------------------------------------------
/// Of two texts the one comes first that has the smaller character where they
/// first differ; one that the other continues comes before it.
pub proof fn the_first_difference_orders(a: Seq<char>, b: Seq<char>, n: int)
    requires
        0 <= n <= a.len(),
        n <= b.len(),
        a.take(n) == b.take(n),
    ensures
        n < a.len() && n < b.len() && a[n] != b[n] ==> (text_less(a, b) <==> a[n] < b[n]),
        n == a.len() && n < b.len() ==> text_less(a, b),
        n == b.len() ==> !text_less(a, b),
    decreases n,
{
    if n > 0 {
        assert(a[0] == a.take(n)[0] && b[0] == b.take(n)[0]);
        assert(n < a.len() ==> a.skip(1)[n - 1] == a[n]);
        assert(n < b.len() ==> b.skip(1)[n - 1] == b[n]);
        assert(a.skip(1).take(n - 1) =~= a.take(n).skip(1));
        assert(b.skip(1).take(n - 1) =~= b.take(n).skip(1));
        the_first_difference_orders(a.skip(1), b.skip(1), n - 1);
    }
}

/// Callers are told this order.
pub proof fn callers_are_told_the_order(a: &str, b: &str, r: TextOrder, n: int)
    requires
        call_ensures(order_text, (a, b), r),
        0 <= n <= a@.len(),
        n <= b@.len(),
        a@.take(n) == b@.take(n),
    ensures
        n < a@.len() && n < b@.len() && a@[n] < b@[n] ==> r == TextOrder::Before,
        n < a@.len() && n < b@.len() && a@[n] > b@[n] ==> r == TextOrder::After,
        n == a@.len() && n < b@.len() ==> r == TextOrder::Before,
        n < a@.len() && n == b@.len() ==> r == TextOrder::After,
        n == a@.len() && n == b@.len() ==> r == TextOrder::Same,
{
    the_first_difference_orders(a@, b@, n);
    the_first_difference_orders(b@, a@, n);
    if n == a@.len() && n == b@.len() {
        assert(a@ =~= a@.take(n));
        assert(b@ =~= b@.take(n));
    }
}

/// What was stored under a key is found under it, and the other keys keep what
/// they had; what was removed is found no more.
pub proof fn stored_values_are_found<V>(
    map: &mut TextMap<V>,
    key: String,
    value: V,
    stored: &TextMap<V>,
    wanted: &str,
    found: Option<&V>,
)
    requires
        call_ensures(TextMap::<V>::insert, (map, key, value), ()),
        stored@ == final(map)@,
        call_ensures(TextMap::<V>::get, (stored, wanted), found),
    ensures
        wanted@ == key@ ==> found == Some(&value),
        wanted@ != key@ ==> (found is Some <==> old(map)@.dom().contains(wanted@)),
        wanted@ != key@ ==> (found matches Some(v) ==> *v == old(map)@[wanted@]),
{
}

/// What was removed is found no more; the other keys keep what they had.
pub proof fn removed_values_are_gone<V>(
    map: &mut TextMap<V>,
    key: &str,
    left: &TextMap<V>,
    wanted: &str,
    found: Option<&V>,
)
    requires
        call_ensures(TextMap::<V>::remove, (map, key), ()),
        left@ == final(map)@,
        call_ensures(TextMap::<V>::get, (left, wanted), found),
    ensures
        wanted@ == key@ ==> found is None,
        wanted@ != key@ ==> (found is Some <==> old(map)@.dom().contains(wanted@)),
        wanted@ != key@ ==> (found matches Some(v) ==> *v == old(map)@[wanted@]),
{
}

} // verus!
