//! Keyed storage of a pallet: at most one value per key, read back as a
//! mathematical map. Also the list operations the update pools use.
use crate::utilities::Did;
use vstd::prelude::*;

verus! {

/// A key of pallet storage: comparable in executable code exactly as in
/// specifications.
pub trait StorageKey: Copy + Sized {
    fn same_key(&self, other: &Self) -> (r: bool)
        ensures
            r == (*self == *other),
    ;
}

impl StorageKey for u64 {
    fn same_key(&self, other: &Self) -> (r: bool) {
        *self == *other
    }
}

impl StorageKey for Did {
    fn same_key(&self, other: &Self) -> (r: bool) {
        self.same(other)
    }
}

/// Whether `k` occurs in `v`.
pub fn list_contains<K: StorageKey>(v: &Vec<K>, k: &K) -> (r: bool)
    ensures
        r == v@.contains(*k),
{
    let mut i: usize = 0;
    while i < v.len()
        invariant
            0 <= i <= v.len(),
            forall|j: int| 0 <= j < i ==> v@[j] != *k,
        decreases v.len() - i,
    {
        if v[i].same_key(k) {
            assert(v@[i as int] == *k);
            return true;
        }
        i = i + 1;
    }
    false
}

/// The first position of `k` in `v`, if it occurs.
pub fn first_position<K: StorageKey>(v: &Vec<K>, k: &K) -> (r: Option<usize>)
    ensures
        match r {
            Some(j) => j < v@.len() && v@[j as int] == *k && forall|i: int| 0 <= i < j ==> v@[i] != *k,
            None => !v@.contains(*k),
        },
{
    let mut i: usize = 0;
    while i < v.len()
        invariant
            0 <= i <= v.len(),
            forall|j: int| 0 <= j < i ==> v@[j] != *k,
        decreases v.len() - i,
    {
        if v[i].same_key(k) {
            return Some(i);
        }
        i = i + 1;
    }
    None
}

/// Removing the first occurrence of `x`, found at `j`, is removing position `j`.
pub proof fn lemma_remove_first<K>(s: Seq<K>, x: K, j: int)
    requires
        0 <= j < s.len(),
        s[j] == x,
        forall|i: int| 0 <= i < j ==> s[i] != x,
    ensures
        s.remove_value(x) == s.remove(j),
{
    s.index_of_first_ensures(x);
    let k = s.index_of_first(x).unwrap();
    if k < j {
        assert(s[k] != x);
    }
    if j < k {
        assert(s[j] != x);
    }
}

/// Removing an element keeps a list free of duplicates.
pub proof fn lemma_remove_keeps_distinct<K>(s: Seq<K>, j: int)
    requires
        0 <= j < s.len(),
        s.no_duplicates(),
    ensures
        s.remove(j).no_duplicates(),
{
    let t = s.remove(j);
    assert forall|a: int, b: int| 0 <= a < t.len() && 0 <= b < t.len() && a != b implies t[a] != t[b] by {
        let sa = if a < j { a } else { a + 1 };
        let sb = if b < j { b } else { b + 1 };
        assert(t[a] == s[sa]);
        assert(t[b] == s[sb]);
    }
}

/// Appending an absent element keeps a list free of duplicates.
pub proof fn lemma_push_absent_keeps_distinct<K>(s: Seq<K>, k: K)
    requires
        s.no_duplicates(),
    ensures
        push_if_absent(s, k).no_duplicates(),
{
    if !s.contains(k) {
        let t = s.push(k);
        assert forall|a: int, b: int| 0 <= a < t.len() && 0 <= b < t.len() && a != b implies t[a] != t[b] by {
            if a == s.len() {
                assert(t[b] == s[b]);
            } else if b == s.len() {
                assert(t[a] == s[a]);
            }
        }
    }
}

/// Appends `k` to `v` unless it is already there.
pub fn push_absent<K: StorageKey>(v: &mut Vec<K>, k: K)
    ensures
        final(v)@ == push_if_absent(old(v)@, k),
{
    if !list_contains(v, &k) {
        v.push(k);
    }
}

/// `s` with `k` appended, unless `s` already holds it.
pub open spec fn push_if_absent<K>(s: Seq<K>, k: K) -> Seq<K> {
    if s.contains(k) {
        s
    } else {
        s.push(k)
    }
}

/// Holds of everything but `k`.
pub open spec fn differs_from<K>(k: K) -> spec_fn(K) -> bool {
    |x: K| x != k
}

/// Holds of everything that `ks` does not list.
pub open spec fn not_in<K>(ks: Seq<K>) -> spec_fn(K) -> bool {
    |x: K| !ks.contains(x)
}

/// `s` with every occurrence of `k` taken out, the rest in order.
pub open spec fn without<K>(s: Seq<K>, k: K) -> Seq<K> {
    s.filter(differs_from(k))
}

/// Filtering keeps only elements of the list, and keeps a list free of
/// duplicates.
pub proof fn lemma_filter_distinct<K>(s: Seq<K>, p: spec_fn(K) -> bool)
    ensures
        forall|x: K| s.filter(p).contains(x) ==> s.contains(x),
        s.no_duplicates() ==> s.filter(p).no_duplicates(),
    decreases s.len(),
{
    reveal_with_fuel(Seq::<_>::filter, 1);
    if s.len() > 0 {
        let t = s.drop_last();
        lemma_filter_distinct(t, p);
        assert(s.filter(p) == if p(s.last()) {
            t.filter(p).push(s.last())
        } else {
            t.filter(p)
        });
        assert forall|x: K| s.filter(p).contains(x) implies s.contains(x) by {
            let f = s.filter(p);
            let k = choose|k: int| 0 <= k < f.len() && f[k] == x;
            if k < t.filter(p).len() {
                assert(t.filter(p)[k] == x);
                assert(t.filter(p).contains(x));
                assert(t.contains(x));
                let i = choose|i: int| 0 <= i < t.len() && t[i] == x;
                assert(s[i] == x);
            } else {
                assert(s[s.len() - 1] == x);
            }
        }
        if s.no_duplicates() {
            assert(t.no_duplicates()) by {
                assert forall|a: int, b: int| 0 <= a < t.len() && 0 <= b < t.len() && a != b implies t[a] != t[b] by {
                    assert(t[a] == s[a] && t[b] == s[b]);
                }
            }
            if p(s.last()) {
                let f = t.filter(p);
                assert(!t.contains(s.last())) by {
                    if t.contains(s.last()) {
                        let i = choose|i: int| 0 <= i < t.len() && t[i] == s.last();
                        assert(s[i] == s[s.len() - 1]);
                    }
                }
                lemma_push_absent_keeps_distinct(f, s.last());
            }
        }
    }
}

/// Filters by predicates that agree give the same list.
pub proof fn lemma_filter_same<K>(s: Seq<K>, p: spec_fn(K) -> bool, q: spec_fn(K) -> bool)
    requires
        forall|x: K| #[trigger] p(x) == q(x),
    ensures
        s.filter(p) == s.filter(q),
{
    assert(p =~= q);
}

/// Holds where both `p` and `q` hold.
pub open spec fn both<K>(p: spec_fn(K) -> bool, q: spec_fn(K) -> bool) -> spec_fn(K) -> bool {
    |x: K| p(x) && q(x)
}

/// Filtering twice is filtering once by both predicates.
pub proof fn lemma_filter_twice<K>(s: Seq<K>, p: spec_fn(K) -> bool, q: spec_fn(K) -> bool)
    ensures
        s.filter(p).filter(q) == s.filter(both(p, q)),
    decreases s.len(),
{
    reveal_with_fuel(Seq::<_>::filter, 1);
    if s.len() > 0 {
        let t = s.drop_last();
        lemma_filter_twice(t, p, q);
        let f = t.filter(p);
        if p(s.last()) {
            assert(f.push(s.last()).drop_last() =~= f);
        }
    }
}

/// The elements of a concatenation are those of its parts.
pub proof fn lemma_contains_concat<K>(a: Seq<K>, b: Seq<K>, x: K)
    ensures
        (a + b).contains(x) == (a.contains(x) || b.contains(x)),
{
    if (a + b).contains(x) {
        let i = choose|i: int| 0 <= i < (a + b).len() && (a + b)[i] == x;
        if i < a.len() {
            assert(a[i] == x);
        } else {
            assert(b[i - a.len()] == x);
        }
    }
    if a.contains(x) {
        let i = choose|i: int| 0 <= i < a.len() && a[i] == x;
        assert((a + b)[i] == x);
    }
    if b.contains(x) {
        let i = choose|i: int| 0 <= i < b.len() && b[i] == x;
        assert((a + b)[a.len() + i] == x);
    }
}

/// Taking out what `a` lists and then what `b` lists takes out what `a + b`
/// lists.
pub proof fn lemma_not_in_twice<K>(s: Seq<K>, a: Seq<K>, b: Seq<K>)
    ensures
        s.filter(not_in(a)).filter(not_in(b)) == s.filter(not_in(a + b)),
{
    lemma_filter_twice(s, not_in(a), not_in(b));
    assert forall|x: K| #[trigger] both(not_in(a), not_in(b))(x) == not_in(a + b)(x) by {
        lemma_contains_concat(a, b, x);
    }
    lemma_filter_same(s, both(not_in(a), not_in(b)), not_in(a + b));
}

/// Taking out nothing keeps everything.
pub proof fn lemma_not_in_nothing<K>(s: Seq<K>)
    ensures
        s.filter(not_in(Seq::<K>::empty())) == s,
    decreases s.len(),
{
    reveal_with_fuel(Seq::<_>::filter, 1);
    if s.len() > 0 {
        lemma_not_in_nothing(s.drop_last());
        assert(s.drop_last().push(s.last()) =~= s);
    }
}

/// Keeps the elements of `v` other than `k`, in order.
pub fn retain_other<K: StorageKey>(v: &mut Vec<K>, k: &K)
    ensures
        final(v)@ == without(old(v)@, *k),
{
    let ghost s = v@;
    let mut kept: Vec<K> = Vec::new();
    let mut i: usize = 0;
    while i < v.len()
        invariant
            0 <= i <= v.len(),
            v@ == s,
            kept@ == s.take(i as int).filter(differs_from(*k)),
        decreases v.len() - i,
    {
        reveal_with_fuel(Seq::<_>::filter, 1);
        let x = v[i];
        assert(s.take(i + 1).drop_last() =~= s.take(i as int));
        if !x.same_key(k) {
            kept.push(x);
        }
        i = i + 1;
    }
    assert(s.take(s.len() as int) =~= s);
    *v = kept;
}

/// A copy of a list of plain values.
pub fn copy_list<T: Copy>(v: &Vec<T>) -> (r: Vec<T>)
    ensures
        r@ == v@,
{
    let mut r: Vec<T> = Vec::new();
    let mut i: usize = 0;
    while i < v.len()
        invariant
            0 <= i <= v.len(),
            r@ == v@.take(i as int),
        decreases v.len() - i,
    {
        r.push(v[i]);
        assert(v@.take(i + 1) =~= v@.take(i as int).push(v@[i as int]));
        i = i + 1;
    }
    assert(v@.take(v.len() as int) =~= v@);
    r
}

/// The position of the entry with key `k`, if there is one.
fn find_entry<K: StorageKey, V>(entries: &Vec<(K, V)>, k: &K) -> (r: Option<usize>)
    ensures
        match r {
            Some(i) => i < entries@.len() && entries@[i as int].0 == *k,
            None => forall|i: int| 0 <= i < entries@.len() ==> entries@[i].0 != *k,
        },
{
    let mut i: usize = 0;
    while i < entries.len()
        invariant
            0 <= i <= entries@.len(),
            forall|j: int| 0 <= j < i ==> entries@[j].0 != *k,
        decreases entries@.len() - i,
    {
        if entries[i].0.same_key(k) {
            return Some(i);
        }
        i = i + 1;
    }
    None
}

/// Storage holding at most one value per key.
pub struct StorageMap<K, V> {
    entries: Vec<(K, V)>,
}

/// No key occurs twice among the entries.
pub open spec fn keys_distinct<K, V>(s: Seq<(K, V)>) -> bool {
    forall|i: int, j: int| 0 <= i < j < s.len() ==> s[i].0 != s[j].0
}

/// The map that the entries describe, a later entry winning over an earlier
/// one with the same key.
pub open spec fn entries_map<K, V>(s: Seq<(K, V)>) -> Map<K, V>
    decreases s.len(),
{
    if s.len() == 0 {
        Map::empty()
    } else {
        entries_map(s.drop_last()).insert(s.last().0, s.last().1)
    }
}

proof fn lemma_entries_map<K, V>(s: Seq<(K, V)>)
    requires
        keys_distinct(s),
    ensures
        forall|k: K| #[trigger]
            entries_map(s).dom().contains(k) <==> exists|i: int| 0 <= i < s.len() && s[i].0 == k,
        forall|i: int| 0 <= i < s.len() ==> #[trigger] entries_map(s)[s[i].0] == s[i].1,
    decreases s.len(),
{
    if s.len() > 0 {
        let t = s.drop_last();
        lemma_entries_map(t);
        assert forall|k: K|
            entries_map(s).dom().contains(k) <==> exists|i: int| 0 <= i < s.len() && s[i].0 == k by {
            assert(entries_map(s).dom().contains(k) == (entries_map(t).dom().contains(k) || k == s.last().0));
            if entries_map(s).dom().contains(k) && k != s.last().0 {
                assert(entries_map(t).dom().contains(k));
                let i = choose|i: int| 0 <= i < t.len() && t[i].0 == k;
                assert(s[i].0 == k);
            }
            if exists|i: int| 0 <= i < s.len() && s[i].0 == k {
                let i = choose|i: int| 0 <= i < s.len() && s[i].0 == k;
                if i < t.len() {
                    assert(t[i].0 == k);
                    assert(entries_map(t).dom().contains(k));
                }
            }
        }
        assert forall|i: int| 0 <= i < s.len() implies #[trigger] entries_map(s)[s[i].0] == s[i].1 by {
            if i < t.len() {
                assert(t[i] == s[i]);
                assert(s[i].0 != s.last().0);
                assert(entries_map(t)[t[i].0] == t[i].1);
            }
        }
    }
}

impl<K, V> View for StorageMap<K, V> {
    type V = Map<K, V>;

    closed spec fn view(&self) -> Map<K, V> {
        entries_map(self.entries@)
    }
}

impl<K, V> StorageMap<K, V> {
    /// Every key is stored once.
    #[verifier::type_invariant]
    spec fn keys_unique(&self) -> bool {
        keys_distinct(self.entries@)
    }
}

impl<K: StorageKey, V> StorageMap<K, V> {
    pub fn new() -> (m: Self)
        ensures
            m@ == Map::<K, V>::empty(),
    {
        StorageMap { entries: Vec::new() }
    }

    pub fn contains_key(&self, k: &K) -> (r: bool)
        ensures
            r == self@.contains_key(*k),
    {
        proof {
            use_type_invariant(self);
            lemma_entries_map(self.entries@);
        }
        match find_entry(&self.entries, k) {
            Some(i) => true,
            None => false,
        }
    }

    pub fn get(&self, k: &K) -> (r: Option<&V>)
        ensures
            r == (if self@.contains_key(*k) {
                Some(&self@[*k])
            } else {
                None
            }),
    {
        proof {
            use_type_invariant(self);
            lemma_entries_map(self.entries@);
        }
        match find_entry(&self.entries, k) {
            Some(i) => Some(&self.entries[i].1),
            None => None,
        }
    }

    pub fn insert(&mut self, k: K, v: V)
        ensures
            final(self)@ == old(self)@.insert(k, v),
    {
        proof {
            use_type_invariant(&*self);
            lemma_entries_map(self.entries@);
        }
        let ghost s = self.entries@;
        let mut entries: Vec<(K, V)> = Vec::new();
        std::mem::swap(&mut entries, &mut self.entries);
        match find_entry(&entries, &k) {
            Some(i) => {
                entries.set(i, (k, v));
                let ghost t = entries@;
                assert(t == s.update(i as int, (k, v)));
                assert(keys_distinct(t));
                proof {
                    lemma_entries_map(t);
                }
                assert forall|x: K| #[trigger] entries_map(t).dom().contains(x) <==> entries_map(
                    s,
                ).insert(k, v).dom().contains(x) by {
                    if exists|j: int| 0 <= j < s.len() && s[j].0 == x {
                        let j = choose|j: int| 0 <= j < s.len() && s[j].0 == x;
                        assert(t[j].0 == x);
                    }
                    if exists|j: int| 0 <= j < t.len() && t[j].0 == x {
                        let j = choose|j: int| 0 <= j < t.len() && t[j].0 == x;
                        if j != i {
                            assert(s[j].0 == x);
                        }
                    }
                }
                assert forall|x: K| #[trigger] entries_map(t).dom().contains(x) implies entries_map(
                    t,
                )[x] == entries_map(s).insert(k, v)[x] by {
                    let j = choose|j: int| 0 <= j < t.len() && t[j].0 == x;
                    if j != i {
                        assert(s[j] == t[j]);
                    }
                }
                assert(entries_map(t) =~= entries_map(s).insert(k, v));
            },
            None => {
                entries.push((k, v));
                assert(entries@.drop_last() =~= s);
            },
        }
        self.entries = entries;
    }
}

} // verus!
