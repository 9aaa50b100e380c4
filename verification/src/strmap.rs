//! A map from text keys to text values, kept in ascending key order, as
//! the library's records hold them (payloads, identity inputs, attributes).
use vstd::prelude::*;

use crate::text::{text_lt, str_eq, str_lt};

verus! {

/// `text_lt` never relates a text to itself.
pub proof fn lemma_text_lt_irreflexive(a: Seq<char>)
    ensures
        !text_lt(a, a),
    decreases a.len(),
{
    if a.len() > 0 {
        lemma_text_lt_irreflexive(a.drop_first());
    }
}

/// `text_lt` is transitive.
pub proof fn lemma_text_lt_transitive(a: Seq<char>, b: Seq<char>, c: Seq<char>)
    requires
        text_lt(a, b),
        text_lt(b, c),
    ensures
        text_lt(a, c),
    decreases a.len(),
{
    if a.len() > 0 && b.len() > 0 && c.len() > 0 {
        if a[0] == b[0] && b[0] == c[0] {
            lemma_text_lt_transitive(a.drop_first(), b.drop_first(), c.drop_first());
        }
    }
}

/// Two different texts are ordered one way or the other.
pub proof fn lemma_text_lt_total(a: Seq<char>, b: Seq<char>)
    requires
        a != b,
    ensures
        text_lt(a, b) || text_lt(b, a),
    decreases a.len(),
{
    if a.len() > 0 && b.len() > 0 && a[0] == b[0] {
        if a.drop_first() == b.drop_first() {
            assert(a =~= seq![a[0]] + a.drop_first());
            assert(b =~= seq![b[0]] + b.drop_first());
        }
        lemma_text_lt_total(a.drop_first(), b.drop_first());
    } else if a.len() > 0 && b.len() > 0 {
    } else if a.len() == 0 && b.len() == 0 {
        assert(a =~= b);
    }
}

/// `text_lt` never holds both ways.
pub proof fn lemma_text_lt_asymmetric(a: Seq<char>, b: Seq<char>)
    requires
        text_lt(a, b),
    ensures
        !text_lt(b, a),
{
    if text_lt(b, a) {
        lemma_text_lt_transitive(a, b, a);
        lemma_text_lt_irreflexive(a);
    }
}

/// Keys strictly ascend along the entries.
pub open spec fn keys_ascending(s: Seq<(Seq<char>, Seq<char>)>) -> bool {
    forall|i: int, j: int| 0 <= i < j < s.len() ==> text_lt(#[trigger] s[i].0, #[trigger] s[j].0)
}

/// The map the entries describe.
pub open spec fn entries_map(s: Seq<(Seq<char>, Seq<char>)>) -> Map<Seq<char>, Seq<char>> {
    Map::new(
        |k: Seq<char>| exists|i: int| 0 <= i < s.len() && #[trigger] s[i].0 == k,
        |k: Seq<char>| s[choose|i: int| 0 <= i < s.len() && #[trigger] s[i].0 == k].1,
    )
}

/// The index of the first entry whose key is not below `k`.
pub open spec fn lower_bound(s: Seq<(Seq<char>, Seq<char>)>, k: Seq<char>) -> int
    decreases s.len(),
{
    if s.len() == 0 {
        0
    } else if text_lt(s[0].0, k) {
        1 + lower_bound(s.drop_first(), k)
    } else {
        0
    }
}

/// The entries after setting `k` to `v`: the value is replaced where the key
/// is present, otherwise the pair is placed where the order puts it.
pub open spec fn entries_insert(s: Seq<(Seq<char>, Seq<char>)>, k: Seq<char>, v: Seq<char>) -> Seq<
    (Seq<char>, Seq<char>),
> {
    let i = lower_bound(s, k);
    if i < s.len() && s[i].0 == k {
        s.update(i, (k, v))
    } else {
        s.insert(i, (k, v))
    }
}

/// The value under `k`, if any.
pub open spec fn entries_get(s: Seq<(Seq<char>, Seq<char>)>, k: Seq<char>) -> Option<Seq<char>> {
    if exists|i: int| 0 <= i < s.len() && #[trigger] s[i].0 == k {
        Some(s[choose|i: int| 0 <= i < s.len() && #[trigger] s[i].0 == k].1)
    } else {
        None
    }
}

/// A text-to-text map whose entries are kept in ascending key order.
#[derive(Debug, Clone)]
pub struct StringMap {
    entries: Vec<(String, String)>,
}

impl View for StringMap {
    type V = Seq<(Seq<char>, Seq<char>)>;

    closed spec fn view(&self) -> Seq<(Seq<char>, Seq<char>)> {
        self.entries@.map_values(|e: (String, String)| (e.0@, e.1@))
    }
}

/// `lower_bound` lies within the entries, every key before it is below `k`,
/// and in ascending entries every key from it on is not below `k`.
pub proof fn lemma_lower_bound(s: Seq<(Seq<char>, Seq<char>)>, k: Seq<char>)
    ensures
        0 <= lower_bound(s, k) <= s.len(),
        forall|j: int| 0 <= j < lower_bound(s, k) ==> text_lt(#[trigger] s[j].0, k),
        keys_ascending(s) ==> forall|j: int|
            lower_bound(s, k) <= j < s.len() ==> !text_lt(#[trigger] s[j].0, k),
    decreases s.len(),
{
    if s.len() > 0 {
        lemma_lower_bound(s.drop_first(), k);
        if text_lt(s[0].0, k) {
            assert forall|j: int| 0 <= j < lower_bound(s, k) implies text_lt(
                #[trigger] s[j].0,
                k,
            ) by {
                if j > 0 {
                    assert(s[j] == s.drop_first()[j - 1]);
                }
            }
            if keys_ascending(s) {
                assert(keys_ascending(s.drop_first()));
                assert forall|j: int| lower_bound(s, k) <= j < s.len() implies !text_lt(
                    #[trigger] s[j].0,
                    k,
                ) by {
                    assert(s[j] == s.drop_first()[j - 1]);
                }
            }
        } else {
            if keys_ascending(s) {
                assert forall|j: int| 0 <= j < s.len() implies !text_lt(#[trigger] s[j].0, k) by {
                    if j > 0 && text_lt(s[j].0, k) {
                        lemma_text_lt_transitive(s[0].0, s[j].0, k);
                    }
                }
            }
        }
    }
}

/// In ascending entries a key occurs at most once, so `entries_get` finds the
/// entry at any index that holds the key.
pub proof fn lemma_get_at(s: Seq<(Seq<char>, Seq<char>)>, i: int)
    requires
        keys_ascending(s),
        0 <= i < s.len(),
    ensures
        entries_get(s, s[i].0) == Some(s[i].1),
{
    let k = s[i].0;
    assert(s[i].0 == k);
    let j = choose|j: int| 0 <= j < s.len() && #[trigger] s[j].0 == k;
    assert(0 <= j < s.len() && s[j].0 == k);
    lemma_text_lt_irreflexive(k);
    if j < i {
        assert(text_lt(s[j].0, s[i].0));
    }
    if j > i {
        assert(text_lt(s[i].0, s[j].0));
    }
    assert(j == i);
}

/// Inserting keeps the keys ascending and gives the map with `k` set to `v`.
pub proof fn lemma_entries_insert(s: Seq<(Seq<char>, Seq<char>)>, k: Seq<char>, v: Seq<char>)
    requires
        keys_ascending(s),
    ensures
        keys_ascending(entries_insert(s, k, v)),
        forall|key: Seq<char>|
            #[trigger] entries_get(entries_insert(s, k, v), key) == if key == k {
                Some(v)
            } else {
                entries_get(s, key)
            },
{
    lemma_lower_bound(s, k);
    let i = lower_bound(s, k);
    let t = entries_insert(s, k, v);
    if i < s.len() && s[i].0 == k {
        assert(keys_ascending(t));
        assert forall|key: Seq<char>| #[trigger]
            entries_get(t, key) == if key == k {
                Some(v)
            } else {
                entries_get(s, key)
            } by {
            lemma_get_at(t, i);
            if key != k {
                if exists|j: int| 0 <= j < s.len() && #[trigger] s[j].0 == key {
                    let j = choose|j: int| 0 <= j < s.len() && #[trigger] s[j].0 == key;
                    lemma_get_at(s, j);
                    lemma_get_at(t, j);
                } else {
                    assert forall|j: int| 0 <= j < t.len() implies #[trigger] t[j].0 != key by {
                        if j != i {
                            assert(t[j] == s[j]);
                        }
                    }
                }
            }
        }
    } else {
        assert forall|a: int, b: int| 0 <= a < b < t.len() implies text_lt(
            #[trigger] t[a].0,
            #[trigger] t[b].0,
        ) by {
            if b < i {
                assert(t[a] == s[a] && t[b] == s[b]);
            } else if b == i {
                assert(t[a] == s[a]);
            } else if a == i {
                assert(t[b] == s[b - 1]);
                assert(!text_lt(s[b - 1].0, k));
                if b - 1 == i {
                    assert(s[i].0 != k);
                    lemma_text_lt_total(k, s[i].0);
                } else {
                    assert(text_lt(s[i].0, s[b - 1].0));
                    assert(s[i].0 != k);
                    lemma_text_lt_total(k, s[i].0);
                    if text_lt(s[i].0, k) {
                    } else {
                        lemma_text_lt_transitive(k, s[i].0, s[b - 1].0);
                    }
                }
            } else if a < i {
                assert(t[a] == s[a] && t[b] == s[b - 1]);
                if b - 1 > a {
                } else {
                }
            } else {
                assert(t[a] == s[a - 1] && t[b] == s[b - 1]);
            }
        }
        assert(keys_ascending(t));
        assert forall|key: Seq<char>| #[trigger]
            entries_get(t, key) == if key == k {
                Some(v)
            } else {
                entries_get(s, key)
            } by {
            assert(t[i] == (k, v));
            lemma_get_at(t, i);
            if key != k {
                if exists|j: int| 0 <= j < s.len() && #[trigger] s[j].0 == key {
                    let j = choose|j: int| 0 <= j < s.len() && #[trigger] s[j].0 == key;
                    lemma_get_at(s, j);
                    if j < i {
                        assert(t[j] == s[j]);
                        lemma_get_at(t, j);
                    } else {
                        assert(t[j + 1] == s[j]);
                        lemma_get_at(t, j + 1);
                    }
                } else {
                    assert forall|j: int| 0 <= j < t.len() implies #[trigger] t[j].0 != key by {
                        if j < i {
                            assert(t[j] == s[j]);
                        } else if j > i {
                            assert(t[j] == s[j - 1]);
                        }
                    }
                }
            }
        }
    }
}

impl StringMap {
    /// The entries in ascending key order.
    pub open spec fn wf(&self) -> bool {
        keys_ascending(self@)
    }

    /// An empty map.
    pub fn new() -> (m: StringMap)
        ensures
            m@ == Seq::<(Seq<char>, Seq<char>)>::empty(),
            m.wf(),
    {
        let m = StringMap { entries: Vec::new() };
        assert(m@ =~= Seq::<(Seq<char>, Seq<char>)>::empty());
        m
    }

    /// A copy of the map.
    pub fn duplicate(&self) -> (r: StringMap)
        ensures
            r@ == self@,
            self.wf() ==> r.wf(),
    {
        let mut entries: Vec<(String, String)> = Vec::new();
        let mut i: usize = 0;
        while i < self.entries.len()
            invariant
                0 <= i <= self.entries@.len(),
                entries@.len() == i,
                forall|j: int|
                    0 <= j < i ==> (#[trigger] entries@[j]).0@ == self.entries@[j].0@
                        && entries@[j].1@ == self.entries@[j].1@,
            decreases self.entries.len() - i,
        {
            let k = self.entries[i].0.clone();
            let v = self.entries[i].1.clone();
            entries.push((k, v));
            i = i + 1;
        }
        let r = StringMap { entries };
        assert(r@ =~= self@);
        r
    }

    /// The number of entries.
    pub fn len(&self) -> (n: usize)
        ensures
            n == self@.len(),
    {
        self.entries.len()
    }

    /// The key of the entry at `i`.
    pub fn key_at(&self, i: usize) -> (r: &String)
        requires
            i < self@.len(),
        ensures
            r@ == self@[i as int].0,
    {
        &self.entries[i].0
    }

    /// The value of the entry at `i`.
    pub fn value_at(&self, i: usize) -> (r: &String)
        requires
            i < self@.len(),
        ensures
            r@ == self@[i as int].1,
    {
        &self.entries[i].1
    }

    /// Sets `key` to `value`, replacing a value already there.
    pub fn insert(&mut self, key: String, value: String)
        requires
            old(self).wf(),
        ensures
            final(self).wf(),
            final(self)@ == entries_insert(old(self)@, key@, value@),
    {
        let ghost s = self@;
        proof {
            lemma_lower_bound(s, key@);
            lemma_entries_insert(s, key@, value@);
        }
        let mut i: usize = 0;
        while i < self.entries.len()
            invariant
                self@ == s,
                keys_ascending(s),
                0 <= i <= s.len(),
                i <= lower_bound(s, key@) <= s.len(),
                forall|j: int| 0 <= j < i ==> text_lt(#[trigger] s[j].0, key@),
                forall|j: int| 0 <= j < lower_bound(s, key@) ==> text_lt(#[trigger] s[j].0, key@),
                forall|j: int|
                    lower_bound(s, key@) <= j < s.len() ==> !text_lt(#[trigger] s[j].0, key@),
            ensures
                self@ == s,
                i == lower_bound(s, key@),
            decreases self.entries.len() - i,
        {
            assert(self@[i as int] == (self.entries@[i as int].0@, self.entries@[i as int].1@));
            assert(s[i as int].0 == self.entries@[i as int].0@);
            if str_lt(self.entries[i].0.as_str(), key.as_str()) {
                i = i + 1;
            } else {
                break;
            }
        }
        assert(i == lower_bound(s, key@));
        if i < self.entries.len() && str_eq(self.entries[i].0.as_str(), key.as_str()) {
            self.entries.set(i, (key, value));
            assert(self@ =~= s.update(i as int, (key@, value@)));
        } else {
            self.entries.insert(i, (key, value));
            assert(self@ =~= s.insert(i as int, (key@, value@)));
        }
    }

    /// The value stored under `key`, if any.
    pub fn get(&self, key: &str) -> (r: Option<&String>)
        requires
            self.wf(),
        ensures
            match r {
                Some(v) => entries_get(self@, key@) == Some(v@),
                None => entries_get(self@, key@) is None,
            },
    {
        let mut i: usize = 0;
        while i < self.entries.len()
            invariant
                self.wf(),
                0 <= i <= self@.len(),
                forall|j: int| 0 <= j < i ==> #[trigger] self@[j].0 != key@,
            decreases self.entries.len() - i,
        {
            assert(self@[i as int] == (self.entries@[i as int].0@, self.entries@[i as int].1@));
            if str_eq(self.entries[i].0.as_str(), key) {
                proof {
                    lemma_get_at(self@, i as int);
                }
                return Some(&self.entries[i].1);
            }
            i = i + 1;
        }
        None
    }
}

} // verus!

verus! {

/// Texts strictly ascending.
pub open spec fn texts_ascending(s: Seq<Seq<char>>) -> bool {
    forall|i: int, j: int| 0 <= i < j < s.len() ==> text_lt(#[trigger] s[i], #[trigger] s[j])
}

/// The views of a list of texts.
pub open spec fn texts_view(v: Seq<String>) -> Seq<Seq<char>> {
    v.map_values(|s: String| s@)
}

/// The texts of a set in ascending order, each once.
pub open spec fn sorted_texts(s: Set<Seq<char>>) -> Seq<Seq<char>> {
    choose|q: Seq<Seq<char>>| texts_ascending(q) && q.to_set() == s
}

/// Two ascending lists of the same texts are the same list.
pub proof fn lemma_ascending_unique(a: Seq<Seq<char>>, b: Seq<Seq<char>>)
    requires
        texts_ascending(a),
        texts_ascending(b),
        a.to_set() == b.to_set(),
    ensures
        a == b,
    decreases a.len(),
{
    if a.len() == 0 || b.len() == 0 {
        if b.len() > 0 {
            assert(b.to_set().contains(b[0]));
        }
        if a.len() > 0 {
            assert(a.to_set().contains(a[0]));
        }
        assert(a =~= b);
    } else {
        assert(a.to_set().contains(a[0]));
        assert(b.to_set().contains(b[0]));
        let j = choose|j: int| 0 <= j < b.len() && b[j] == a[0];
        let i = choose|i: int| 0 <= i < a.len() && a[i] == b[0];
        if a[0] != b[0] {
            assert(text_lt(b[0], b[j]));
            assert(text_lt(a[0], a[i]));
            lemma_text_lt_asymmetric(a[0], b[0]);
        }
        let a1 = a.drop_first();
        let b1 = b.drop_first();
        assert forall|x: Seq<char>| a1.to_set().contains(x) <==> b1.to_set().contains(x) by {
            if a1.to_set().contains(x) {
                let k = choose|k: int| 0 <= k < a1.len() && a1[k] == x;
                assert(text_lt(a[0], a[k + 1]));
                lemma_text_lt_irreflexive(x);
                assert(a.to_set().contains(x));
                let m = choose|m: int| 0 <= m < b.len() && b[m] == x;
                assert(m != 0);
                assert(b1[m - 1] == x);
            }
            if b1.to_set().contains(x) {
                let k = choose|k: int| 0 <= k < b1.len() && b1[k] == x;
                assert(text_lt(b[0], b[k + 1]));
                lemma_text_lt_irreflexive(x);
                assert(b.to_set().contains(x));
                let m = choose|m: int| 0 <= m < a.len() && a[m] == x;
                assert(m != 0);
                assert(a1[m - 1] == x);
            }
        }
        assert(a1.to_set() =~= b1.to_set());
        assert forall|p: int, q: int| 0 <= p < q < a1.len() implies text_lt(#[trigger] a1[p], #[trigger] a1[q]) by {
            assert(text_lt(a[p + 1], a[q + 1]));
        }
        assert forall|p: int, q: int| 0 <= p < q < b1.len() implies text_lt(#[trigger] b1[p], #[trigger] b1[q]) by {
            assert(text_lt(b[p + 1], b[q + 1]));
        }
        lemma_ascending_unique(a1, b1);
        assert forall|k: int| 0 <= k < a.len() implies a[k] == b[k] by {
            if k > 0 {
                assert(a[k] == a1[k - 1]);
                assert(b[k] == b1[k - 1]);
            }
        }
        assert(a =~= b);
    }
}

/// An ascending list is the sorted list of its own texts.
pub proof fn lemma_sorted_texts(q: Seq<Seq<char>>)
    requires
        texts_ascending(q),
    ensures
        sorted_texts(q.to_set()) == q,
{
    let r = sorted_texts(q.to_set());
    assert(texts_ascending(r) && r.to_set() == q.to_set());
    lemma_ascending_unique(r, q);
}

/// An ascending list of texts with `x` put in its place, unless it is
/// there already.
pub open spec fn insert_text(q: Seq<Seq<char>>, x: Seq<char>) -> Seq<Seq<char>>
    decreases q.len(),
{
    if q.len() == 0 {
        seq![x]
    } else if q[0] == x {
        q
    } else if text_lt(q[0], x) {
        seq![q[0]] + insert_text(q.drop_first(), x)
    } else {
        seq![x] + q
    }
}

/// Putting a text in its place keeps a list ascending and adds the text to
/// its set.
pub proof fn lemma_insert_text(q: Seq<Seq<char>>, x: Seq<char>)
    requires
        texts_ascending(q),
    ensures
        texts_ascending(insert_text(q, x)),
        insert_text(q, x).to_set() == q.to_set().insert(x),
    decreases q.len(),
{
    let r = insert_text(q, x);
    if q.len() == 0 {
        assert(r.to_set() =~= q.to_set().insert(x)) by {
            assert(r[0] == x);
        }
    } else if q[0] == x {
        assert(q.to_set().contains(x));
        assert(r.to_set() =~= q.to_set().insert(x));
    } else if text_lt(q[0], x) {
        let q1 = q.drop_first();
        assert forall|p: int, k: int| 0 <= p < k < q1.len() implies text_lt(#[trigger] q1[p], #[trigger] q1[k]) by {
            assert(text_lt(q[p + 1], q[k + 1]));
        }
        lemma_insert_text(q1, x);
        let t = insert_text(q1, x);
        assert(r == seq![q[0]] + t);
        assert forall|k: int| 0 <= k < t.len() implies text_lt(q[0], #[trigger] t[k]) by {
            assert(t.to_set().contains(t[k]));
            if t[k] != x {
                assert(q1.to_set().contains(t[k]));
                let m = choose|m: int| 0 <= m < q1.len() && q1[m] == t[k];
                assert(text_lt(q[0], q[m + 1]));
            }
        }
        assert forall|p: int, k: int| 0 <= p < k < r.len() implies text_lt(#[trigger] r[p], #[trigger] r[k]) by {
            if p == 0 {
                assert(r[k] == t[k - 1]);
            } else {
                assert(r[p] == t[p - 1] && r[k] == t[k - 1]);
            }
        }
        assert forall|y: Seq<char>| r.to_set().contains(y) <==> q.to_set().insert(x).contains(y) by {
            if r.to_set().contains(y) {
                let m = choose|m: int| 0 <= m < r.len() && r[m] == y;
                if m > 0 {
                    assert(t.to_set().contains(t[m - 1]));
                    if y != x {
                        let n = choose|n: int| 0 <= n < q1.len() && q1[n] == y;
                        assert(q[n + 1] == y);
                    }
                } else {
                    assert(q[0] == y);
                }
            }
            if q.to_set().insert(x).contains(y) {
                if y == x {
                    assert(t.to_set().contains(x));
                    let n = choose|n: int| 0 <= n < t.len() && t[n] == x;
                    assert(r[n + 1] == x);
                } else {
                    let n = choose|n: int| 0 <= n < q.len() && q[n] == y;
                    if n == 0 {
                        assert(r[0] == y);
                    } else {
                        assert(q1[n - 1] == y);
                        assert(q1.to_set().contains(y));
                        assert(t.to_set().contains(y));
                        let m = choose|m: int| 0 <= m < t.len() && t[m] == y;
                        assert(r[m + 1] == y);
                    }
                }
            }
        }
        assert(r.to_set() =~= q.to_set().insert(x));
    } else {
        lemma_text_lt_total(x, q[0]);
        assert forall|p: int, k: int| 0 <= p < k < r.len() implies text_lt(#[trigger] r[p], #[trigger] r[k]) by {
            if p == 0 {
                if k > 1 {
                    assert(text_lt(q[0], q[k - 1]));
                    lemma_text_lt_transitive(x, q[0], q[k - 1]);
                }
            } else {
                assert(r[p] == q[p - 1] && r[k] == q[k - 1]);
            }
        }
        assert forall|y: Seq<char>| r.to_set().contains(y) <==> q.to_set().insert(x).contains(y) by {
            if r.to_set().contains(y) {
                let m = choose|m: int| 0 <= m < r.len() && r[m] == y;
                if m > 0 {
                    assert(q[m - 1] == y);
                }
            }
            if q.to_set().insert(x).contains(y) && y != x {
                let n = choose|n: int| 0 <= n < q.len() && q[n] == y;
                assert(r[n + 1] == y);
            }
            if y == x {
                assert(r[0] == x);
            }
        }
        assert(r.to_set() =~= q.to_set().insert(x));
    }
}

/// The texts of a list have an ascending list, each once.
pub proof fn lemma_sorted_texts_exist(s: Seq<Seq<char>>)
    ensures
        texts_ascending(sorted_texts(s.to_set())),
        sorted_texts(s.to_set()).to_set() == s.to_set(),
    decreases s.len(),
{
    if s.len() == 0 {
        let e = Seq::<Seq<char>>::empty();
        assert(e.to_set() =~= s.to_set());
        assert(texts_ascending(e) && e.to_set() == s.to_set());
    } else {
        let init = s.drop_last();
        lemma_sorted_texts_exist(init);
        let q = sorted_texts(init.to_set());
        lemma_insert_text(q, s.last());
        let w = insert_text(q, s.last());
        assert(s =~= init.push(s.last()));
        init.lemma_push_to_set_commute(s.last());
        assert(texts_ascending(w) && w.to_set() == s.to_set());
    }
}

/// Sorts texts ascending and drops repeats, as `sort` followed by `dedup`.
pub fn sort_dedup(v: Vec<String>) -> (r: Vec<String>)
    ensures
        texts_ascending(texts_view(r@)),
        texts_view(r@).to_set() == texts_view(v@).to_set(),
        texts_view(r@) == sorted_texts(texts_view(v@).to_set()),
{
    let ghost input = texts_view(v@);
    let mut out: Vec<String> = Vec::new();
    let mut i: usize = 0;
    assert(input.take(0).to_set() =~= Set::<Seq<char>>::empty());
    assert(texts_view(out@).to_set() =~= Set::<Seq<char>>::empty());
    while i < v.len()
        invariant
            input == texts_view(v@),
            0 <= i <= v@.len(),
            texts_ascending(texts_view(out@)),
            texts_view(out@).to_set() == input.take(i as int).to_set(),
        decreases v@.len() - i,
    {
        let item = &v[i];
        let ghost o = texts_view(out@);
        let mut j: usize = 0;
        while j < out.len()
            invariant
                o == texts_view(out@),
                texts_ascending(o),
                0 <= j <= o.len(),
                forall|k: int| 0 <= k < j ==> text_lt(#[trigger] o[k], item@),
            ensures
                o == texts_view(out@),
                0 <= j <= o.len(),
                forall|k: int| 0 <= k < j ==> text_lt(#[trigger] o[k], item@),
                j < o.len() ==> !text_lt(o[j as int], item@),
            decreases out@.len() - j,
        {
            assert(o[j as int] == out@[j as int]@);
            if str_lt(out[j].as_str(), item.as_str()) {
                j = j + 1;
            } else {
                break;
            }
        }
        proof {
            assert(input.take(i + 1) =~= input.take(i as int).push(item@));
            input.take(i as int).lemma_push_to_set_commute(item@);
        }
        if j < out.len() && str_eq(out[j].as_str(), item.as_str()) {
            proof {
                assert(o[j as int] == item@);
                assert(o.to_set().contains(item@));
                assert(o.to_set().insert(item@) =~= o.to_set());
            }
        } else {
            proof {
                if j < o.len() {
                    assert(o[j as int] == out@[j as int]@);
                    assert(!text_lt(o[j as int], item@));
                    lemma_text_lt_total(item@, o[j as int]);
                }
            }
            out.insert(j, item.clone());
            proof {
                let n = texts_view(out@);
                assert(n =~= o.insert(j as int, item@));
                assert forall|a: int, b: int| 0 <= a < b < n.len() implies text_lt(
                    #[trigger] n[a],
                    #[trigger] n[b],
                ) by {
                    if b < j {
                    } else if b == j {
                    } else if a == j {
                        if b - 1 > j {
                            lemma_text_lt_transitive(item@, o[j as int], o[b - 1]);
                        }
                    } else if a < j {
                    } else {
                    }
                }
                assert(n.to_set() =~= o.to_set().insert(item@)) by {
                    assert forall|x: Seq<char>| n.to_set().contains(x) implies o.to_set().insert(
                        item@,
                    ).contains(x) by {
                        let k = choose|k: int| 0 <= k < n.len() && n[k] == x;
                        if k < j {
                            assert(o[k] == x);
                        } else if k > j {
                            assert(o[k - 1] == x);
                        }
                    }
                    assert forall|x: Seq<char>| o.to_set().insert(item@).contains(x) implies n.to_set().contains(
                        x,
                    ) by {
                        if x == item@ {
                            assert(n[j as int] == x);
                        } else {
                            let k = choose|k: int| 0 <= k < o.len() && o[k] == x;
                            if k < j {
                                assert(n[k] == x);
                            } else {
                                assert(n[k + 1] == x);
                            }
                        }
                    }
                }
            }
        }
        i = i + 1;
    }
    assert(input.take(v@.len() as int) =~= input);
    proof {
        lemma_sorted_texts(texts_view(out@));
    }
    out
}

} // verus!
