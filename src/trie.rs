//! A prefix tree from key sequences to bound values.
//!
//! The tree is modelled by the map of its bindings (`Trie::bindings`). A
//! lookup reports a match only at a bound node without children: a binding
//! that is a strict prefix of a longer binding answers `MaybeIncomplete`.
use vstd::prelude::*;

verus! {

/// Edge labels whose executable equality is the mathematical one.
pub trait EdgeLabel: Sized {
    fn same_label(&self, other: &Self) -> (r: bool)
        ensures
            r == (*self == *other),
    ;
}

impl EdgeLabel for u8 {
    fn same_label(&self, other: &u8) -> (r: bool) {
        *self == *other
    }
}

impl EdgeLabel for char {
    fn same_label(&self, other: &char) -> (r: bool) {
        *self == *other
    }
}

/// The outcome of a lookup.
#[derive(PartialEq, Debug)]
pub enum FetchResult<V> {
    /// The sequence is bound and no longer binding extends it.
    Matched(V),
    /// No binding starts with the sequence.
    NoMatch,
    /// A longer binding starts with the sequence.
    MaybeIncomplete,
}

impl<V> From<Option<V>> for FetchResult<V> {
    fn from(value: Option<V>) -> (r: FetchResult<V>) {
        match value {
            Some(v) => FetchResult::Matched(v),
            None => FetchResult::NoMatch,
        }
    }
}

impl<V> vstd::std_specs::convert::FromSpecImpl<Option<V>> for FetchResult<V> {
    open spec fn obeys_from_spec() -> bool {
        true
    }

    open spec fn from_spec(value: Option<V>) -> FetchResult<V> {
        match value {
            Some(v) => FetchResult::Matched(v),
            None => FetchResult::NoMatch,
        }
    }
}

/// `q` is `p` followed by at least one more key.
pub open spec fn extends<K>(p: Seq<K>, q: Seq<K>) -> bool {
    p.len() < q.len() && q.subrange(0, p.len() as int) == p
}

/// Some binding of `m` strictly extends `p`.
pub open spec fn has_extension<K, V>(m: Map<Seq<K>, V>, p: Seq<K>) -> bool {
    exists|q: Seq<K>| #[trigger] m.contains_key(q) && extends(p, q)
}

/// What a lookup of `p` answers over the bindings `m`.
pub open spec fn fetch_model<K, V>(m: Map<Seq<K>, V>, p: Seq<K>) -> FetchResult<V> {
    if has_extension(m, p) {
        FetchResult::MaybeIncomplete
    } else if m.contains_key(p) {
        FetchResult::Matched(m[p])
    } else {
        FetchResult::NoMatch
    }
}

/// The smallest `i >= from` such that the suffix of `p` from `i` matches.
pub open spec fn first_match<K, V>(m: Map<Seq<K>, V>, p: Seq<K>, from: int) -> Option<int>
    decreases p.len() - from,
{
    if from < 0 || from >= p.len() {
        None
    } else if fetch_model(m, p.subrange(from, p.len() as int)) is Matched {
        Some(from)
    } else {
        first_match(m, p, from + 1)
    }
}

/// What a lookup that may discard leading keys of `p` answers: the first
/// suffix that matches, with the number of keys discarded before it; else the
/// verdict on the whole of `p`.
pub open spec fn padded_fetch_model<K, V>(m: Map<Seq<K>, V>, p: Seq<K>) -> FetchResult<(int, V)> {
    match first_match(m, p, 0) {
        Some(i) => FetchResult::Matched((i, m[p.subrange(i, p.len() as int)])),
        None => match fetch_model(m, p) {
            FetchResult::Matched(v) => FetchResult::Matched((0, v)),
            FetchResult::NoMatch => FetchResult::NoMatch,
            FetchResult::MaybeIncomplete => FetchResult::MaybeIncomplete,
        },
    }
}

/// `r` holds the value of `m` by reference.
pub open spec fn refers_to<V>(r: FetchResult<&V>, m: FetchResult<V>) -> bool {
    match (r, m) {
        (FetchResult::Matched(a), FetchResult::Matched(b)) => *a == b,
        (FetchResult::NoMatch, FetchResult::NoMatch) => true,
        (FetchResult::MaybeIncomplete, FetchResult::MaybeIncomplete) => true,
        _ => false,
    }
}

/// `r` holds the count and the value of `m`, the value by reference.
pub open spec fn refers_to_padded<V>(r: FetchResult<(usize, &V)>, m: FetchResult<(int, V)>) -> bool {
    match (r, m) {
        (FetchResult::Matched((i, a)), FetchResult::Matched((j, b))) => i == j && *a == b,
        (FetchResult::NoMatch, FetchResult::NoMatch) => true,
        (FetchResult::MaybeIncomplete, FetchResult::MaybeIncomplete) => true,
        _ => false,
    }
}

/// `m` with `p` bound to `v`, unless `p` is bound already.
pub open spec fn bind_if_absent<K, V>(m: Map<Seq<K>, V>, p: Seq<K>, v: V) -> Map<Seq<K>, V> {
    if m.contains_key(p) {
        m
    } else {
        m.insert(p, v)
    }
}

proof fn lemma_first_match_skip<K, V>(m: Map<Seq<K>, V>, p: Seq<K>, i: int)
    requires
        0 <= i <= p.len(),
        forall|j: int| 0 <= j < i ==> !(fetch_model(m, #[trigger] p.subrange(j, p.len() as int)) is Matched),
    ensures
        first_match(m, p, 0) == first_match(m, p, i),
    decreases i,
{
    if i > 0 {
        lemma_first_match_skip(m, p, i - 1);
        assert(!(fetch_model(m, p.subrange(i - 1, p.len() as int)) is Matched));
    }
}

/// A suffix that matches starts inside the sequence.
pub proof fn lemma_first_match_range<K, V>(m: Map<Seq<K>, V>, p: Seq<K>, from: int)
    requires
        0 <= from,
    ensures
        first_match(m, p, from) matches Some(i) ==> from <= i < p.len(),
    decreases p.len() - from,
{
    if from < p.len() && !(fetch_model(m, p.subrange(from, p.len() as int)) is Matched) {
        lemma_first_match_range(m, p, from + 1);
    }
}

pub struct Trie<K, V> {
    value: Option<V>,
    children: Vec<(K, Trie<K, V>)>,
}

impl<K, V> Trie<K, V> {
    /// The subtree reached from this node along the edge `k`.
    pub closed spec fn child(self, k: K) -> Option<Trie<K, V>> {
        if exists|i: int| 0 <= i < self.children.len() && self.children@[i].0 == k {
            let i = choose|i: int| 0 <= i < self.children.len() && self.children@[i].0 == k;
            Some(self.children@[i].1)
        } else {
            None
        }
    }

    /// The value bound to `p`.
    pub closed spec fn lookup(self, p: Seq<K>) -> Option<V>
        decreases p.len(),
    {
        if p.len() == 0 {
            self.value
        } else {
            match self.child(p[0]) {
                Some(c) => c.lookup(p.drop_first()),
                None => None,
            }
        }
    }

    /// The bindings held by the tree.
    pub closed spec fn bindings(self) -> Map<Seq<K>, V> {
        Map::new(|p: Seq<K>| self.lookup(p) is Some, |p: Seq<K>| self.lookup(p)->0)
    }

    pub closed spec fn holds_binding(self) -> bool {
        exists|q: Seq<K>| #[trigger] self.lookup(q) is Some
    }

    /// Edge labels are distinct at every node, and every subtree holds a binding.
    pub closed spec fn wf(self) -> bool
        decreases self,
    {
        &&& forall|i: int, j: int|
            0 <= i < j < self.children.len() ==> self.children@[i].0 != self.children@[j].0
        &&& forall|i: int|
            0 <= i < self.children.len() ==> {
                &&& (#[trigger] self.children@[i]).1.wf()
                &&& self.children@[i].1.holds_binding()
            }
    }

    proof fn lemma_bindings(self, p: Seq<K>)
        ensures
            self.bindings().contains_key(p) == (self.lookup(p) is Some),
            self.lookup(p) is Some ==> self.bindings()[p] == self.lookup(p)->0,
    {
    }

    proof fn lemma_child_at(self, i: int)
        requires
            self.wf(),
            0 <= i < self.children.len(),
        ensures
            self.child(self.children@[i].0) == Some(self.children@[i].1),
    {
        let k = self.children@[i].0;
        let j = choose|j: int| 0 <= j < self.children.len() && self.children@[j].0 == k;
        assert(j == i);
    }

    proof fn lemma_lookup_cons(self, k: K, s: Seq<K>)
        ensures
            self.lookup(seq![k] + s) == match self.child(k) {
                Some(c) => c.lookup(s),
                None => None,
            },
    {
        let p = seq![k] + s;
        assert(p[0] == k);
        assert(p.drop_first() =~= s);
    }

    /// Following the edge `k` turns a lookup of `k` then `s` into a lookup
    /// of `s` in the subtree.
    proof fn lemma_fetch_step(self, i: int, s: Seq<K>)
        requires
            self.wf(),
            0 <= i < self.children.len(),
        ensures
            fetch_model(self.bindings(), seq![self.children@[i].0] + s) == fetch_model(
                self.children@[i].1.bindings(),
                s,
            ),
    {
        let k = self.children@[i].0;
        let c = self.children@[i].1;
        let tb = self.bindings();
        let cb = c.bindings();
        let p = seq![k] + s;
        self.lemma_child_at(i);
        self.lemma_lookup_cons(k, s);
        if has_extension(tb, p) {
            let q = choose|q: Seq<K>| #[trigger] tb.contains_key(q) && extends(p, q);
            let q2 = q.drop_first();
            assert(q =~= seq![k] + q2) by {
                assert(q.subrange(0, p.len() as int)[0] == p[0]);
            }
            self.lemma_lookup_cons(k, q2);
            assert(q2.subrange(0, s.len() as int) =~= s) by {
                assert forall|j: int| 0 <= j < s.len() implies q2[j] == s[j] by {
                    assert(q.subrange(0, p.len() as int)[j + 1] == p[j + 1]);
                }
            }
            assert(cb.contains_key(q2));
            assert(has_extension(cb, s));
        }
        if has_extension(cb, s) {
            let q2 = choose|q: Seq<K>| #[trigger] cb.contains_key(q) && extends(s, q);
            let q = seq![k] + q2;
            self.lemma_lookup_cons(k, q2);
            assert(q.subrange(0, p.len() as int) =~= p) by {
                assert forall|j: int| 0 < j < p.len() implies q[j] == p[j] by {
                    assert(q2.subrange(0, s.len() as int)[j - 1] == s[j - 1]);
                }
            }
            assert(tb.contains_key(q));
            assert(has_extension(tb, p));
        }
    }

    /// Without an edge `k`, nothing bound starts with `k`.
    proof fn lemma_fetch_no_child(self, k: K, s: Seq<K>)
        requires
            self.child(k) is None,
        ensures
            fetch_model(self.bindings(), seq![k] + s) == FetchResult::<V>::NoMatch,
    {
        let tb = self.bindings();
        let p = seq![k] + s;
        self.lemma_lookup_cons(k, s);
        if has_extension(tb, p) {
            let q = choose|q: Seq<K>| #[trigger] tb.contains_key(q) && extends(p, q);
            let q2 = q.drop_first();
            assert(q =~= seq![k] + q2) by {
                assert(q.subrange(0, p.len() as int)[0] == p[0]);
            }
            self.lemma_lookup_cons(k, q2);
        }
    }

    /// At the end of the path the node's own state decides.
    proof fn lemma_fetch_here(self)
        requires
            self.wf(),
        ensures
            fetch_model(self.bindings(), Seq::<K>::empty()) == if self.children.len() == 0 {
                match self.value {
                    Some(v) => FetchResult::Matched(v),
                    None => FetchResult::NoMatch,
                }
            } else {
                FetchResult::MaybeIncomplete
            },
    {
        let tb = self.bindings();
        let e = Seq::<K>::empty();
        assert(self.lookup(e) == self.value);
        if self.children.len() == 0 {
            if has_extension(tb, e) {
                let q = choose|q: Seq<K>| #[trigger] tb.contains_key(q) && extends(e, q);
                assert(self.child(q[0]) is None);
            }
        } else {
            let k = self.children@[0].0;
            let c = self.children@[0].1;
            assert(c.holds_binding());
            let q2 = choose|q: Seq<K>| #[trigger] c.lookup(q) is Some;
            self.lemma_child_at(0);
            self.lemma_lookup_cons(k, q2);
            let q = seq![k] + q2;
            assert(q.subrange(0, 0) =~= e);
            assert(tb.contains_key(q));
        }
    }

    /// A tree with no bindings.
    pub fn new() -> (t: Self)
        ensures
            t.wf(),
            t.bindings() == Map::<Seq<K>, V>::empty(),
    {
        let t = Trie { value: None, children: Vec::new() };
        proof {
            assert forall|p: Seq<K>| t.lookup(p) is None by {
                if p.len() > 0 {
                    assert(t.child(p[0]) is None);
                }
            }
            assert(t.bindings() =~= Map::<Seq<K>, V>::empty());
        }
        t
    }

    /// Binds `path` to `v`. A sequence that is bound already keeps its value.
    pub fn insert(&mut self, path: Vec<K>, v: V)
        where K: EdgeLabel
        requires
            old(self).wf(),
        ensures
            final(self).wf(),
            final(self).bindings() == bind_if_absent(old(self).bindings(), path@, v),
        decreases path.len(),
    {
        let ghost pre = *self;
        let ghost pv = v;
        let ghost full = path@;
        if path.len() == 0 {
            if self.value.is_none() {
                self.value = Some(v);
            }
            proof {
                let post = *self;
                assert forall|q: Seq<K>| #[trigger] post.lookup(q) == if q == full && pre.lookup(q) is None {
                    Some(pv)
                } else {
                    pre.lookup(q)
                } by {
                    assert(post.children@ == pre.children@);
                    if q.len() == 0 {
                        assert(q =~= full);
                    } else {
                        assert(post.child(q[0]) == pre.child(q[0]));
                    }
                }
                assert(post.bindings() =~= bind_if_absent(pre.bindings(), full, pv));
            }
            return;
        }
        let mut path = path;
        let k = path.remove(0);
        let ghost rest = path@;
        proof {
            assert(full =~= seq![k] + rest);
        }
        match self.child_index(&k) {
            Some(i) => {
                let (key, mut child) = self.children.remove(i);
                let ghost c = child;
                proof {
                    assert(c == pre.children@[i as int].1);
                    pre.lemma_child_at(i as int);
                }
                child.insert(path, v);
                self.children.insert(i, (key, child));
                proof {
                    let post = *self;
                    let c2 = child;
                    assert(post.children@ =~= pre.children@.update(i as int, (k, c2)));
                    c2.lemma_bindings(rest);
                    assert(c2.lookup(rest) is Some);
                    assert(c2.holds_binding());
                    assert(post.wf());
                    post.lemma_child_at(i as int);
                    self.lemma_insert_lookup(pre, k, rest, pv, i as int);
                }
            },
            None => {
                let mut child = Trie::new();
                child.insert(path, v);
                self.children.push((k, child));
                proof {
                    let post = *self;
                    let c2 = child;
                    let n = pre.children.len() as int;
                    assert(post.children@ =~= pre.children@.push((k, c2)));
                    c2.lemma_bindings(rest);
                    assert(c2.lookup(rest) is Some);
                    assert(c2.holds_binding());
                    assert(post.wf());
                    post.lemma_child_at(n);
                    self.lemma_insert_lookup(pre, k, rest, pv, n);
                }
            },
        }
    }

    /// After the subtree at position `i` took the binding `rest` under the
    /// edge `k`, the whole tree took `k` then `rest`.
    proof fn lemma_insert_lookup(self, pre: Self, k: K, rest: Seq<K>, v: V, i: int)
        requires
            pre.wf(),
            self.wf(),
            self.value == pre.value,
            0 <= i < self.children.len(),
            self.children@[i].0 == k,
            self.child(k) == Some(self.children@[i].1),
            pre.child(k) is Some ==> i < pre.children.len() && pre.children@[i].0 == k
                && self.children.len() == pre.children.len(),
            pre.child(k) is None ==> i == pre.children.len() && self.children.len() == pre.children.len() + 1,
            forall|j: int| 0 <= j < pre.children.len() && j != i ==> self.children@[j] == pre.children@[j],
            self.children@[i].1.bindings() == bind_if_absent(
                match pre.child(k) {
                    Some(c) => c.bindings(),
                    None => Map::<Seq<K>, V>::empty(),
                },
                rest,
                v,
            ),
        ensures
            self.bindings() == bind_if_absent(pre.bindings(), seq![k] + rest, v),
    {
        let full = seq![k] + rest;
        let c2 = self.children@[i].1;
        if pre.child(k) is Some {
            pre.lemma_child_at(i);
        }
        pre.lemma_lookup_cons(k, rest);
        assert forall|q: Seq<K>| #[trigger] self.lookup(q) == if q == full && pre.lookup(q) is None {
            Some(v)
        } else {
            pre.lookup(q)
        } by {
            if q.len() > 0 {
                let q0 = q[0];
                let qd = q.drop_first();
                assert(q =~= seq![q0] + qd);
                self.lemma_lookup_cons(q0, qd);
                pre.lemma_lookup_cons(q0, qd);
                if q0 == k {
                    c2.lemma_bindings(qd);
                    match pre.child(k) {
                        Some(c) => {
                            c.lemma_bindings(qd);
                        },
                        None => {
                            assert(!Map::<Seq<K>, V>::empty().contains_key(qd));
                        },
                    }
                    if qd == rest {
                        assert(q == full);
                    } else {
                        assert(q != full) by {
                            assert(full.drop_first() =~= rest);
                        }
                    }
                } else {
                    assert(q != full);
                    if exists|j: int| 0 <= j < pre.children.len() && pre.children@[j].0 == q0 {
                        let j = choose|j: int| 0 <= j < pre.children.len() && pre.children@[j].0 == q0;
                        assert(j != i);
                        assert(self.children@[j] == pre.children@[j]);
                        pre.lemma_child_at(j);
                        self.lemma_child_at(j);
                    } else {
                        assert forall|j: int| 0 <= j < self.children.len() implies self.children@[j].0 != q0 by {
                            if j != i {
                                assert(self.children@[j] == pre.children@[j]);
                            }
                        }
                    }
                }
            }
        }
        assert forall|q: Seq<K>| true implies {
            &&& self.bindings().contains_key(q) == (self.lookup(q) is Some)
            &&& self.lookup(q) is Some ==> self.bindings()[q] == self.lookup(q)->0
            &&& pre.bindings().contains_key(q) == (pre.lookup(q) is Some)
            &&& pre.lookup(q) is Some ==> pre.bindings()[q] == pre.lookup(q)->0
        } by {
            self.lemma_bindings(q);
            pre.lemma_bindings(q);
        }
        assert(self.bindings() =~= bind_if_absent(pre.bindings(), full, v));
    }

    /// Looks up `path` as a whole.
    pub fn fetch(&self, path: Vec<K>) -> (r: FetchResult<&V>)
        where K: EdgeLabel
        requires
            self.wf(),
        ensures
            refers_to(r, fetch_model(self.bindings(), path@)),
    {
        proof {
            assert(path@.subrange(0, path.len() as int) =~= path@);
        }
        self.fetch_from(&path, 0)
    }

    /// Looks up the suffixes of `path` from the longest down and answers the
    /// first that matches, with the number of leading keys it discarded. When
    /// none matches, answers the verdict on the whole of `path`.
    pub fn fetch_maybe_pad_start(&self, path: Vec<K>) -> (r: FetchResult<(usize, &V)>)
        where K: EdgeLabel
        requires
            self.wf(),
        ensures
            refers_to_padded(r, padded_fetch_model(self.bindings(), path@)),
    {
        let ghost m = self.bindings();
        let mut i: usize = 0;
        while i < path.len()
            invariant
                self.wf(),
                m == self.bindings(),
                i <= path.len(),
                forall|j: int|
                    0 <= j < i ==> !(fetch_model(m, #[trigger] path@.subrange(j, path.len() as int)) is Matched),
            decreases path.len() - i,
        {
            let r = self.fetch_from(&path, i);
            if let FetchResult::Matched(val) = r {
                proof {
                    lemma_first_match_skip(m, path@, i as int);
                }
                return FetchResult::Matched((i, val));
            }
            i = i + 1;
        }
        proof {
            lemma_first_match_skip(m, path@, i as int);
            assert(path@.subrange(0, path.len() as int) =~= path@);
        }
        match self.fetch_from(&path, 0) {
            FetchResult::Matched(val) => FetchResult::Matched((0, val)),
            FetchResult::NoMatch => FetchResult::NoMatch,
            FetchResult::MaybeIncomplete => FetchResult::MaybeIncomplete,
        }
    }

    /// Looks up the suffix of `path` that starts at `start`.
    fn fetch_from(&self, path: &Vec<K>, start: usize) -> (r: FetchResult<&V>)
        where K: EdgeLabel
        requires
            self.wf(),
            start <= path.len(),
        ensures
            refers_to(r, fetch_model(self.bindings(), path@.subrange(start as int, path.len() as int))),
        decreases path.len() - start,
    {
        if start == path.len() {
            proof {
                self.lemma_fetch_here();
                assert(path@.subrange(start as int, path.len() as int) =~= Seq::<K>::empty());
            }
            if self.children.len() == 0 {
                FetchResult::from(self.value.as_ref())
            } else {
                FetchResult::MaybeIncomplete
            }
        } else {
            let ghost rest = path@.subrange(start + 1, path.len() as int);
            proof {
                assert(path@.subrange(start as int, path.len() as int) =~= seq![path@[start as int]] + rest);
            }
            match self.child_index(&path[start]) {
                Some(i) => {
                    proof {
                        self.lemma_fetch_step(i as int, rest);
                    }
                    self.children[i].1.fetch_from(path, start + 1)
                },
                None => {
                    proof {
                        self.lemma_fetch_no_child(path@[start as int], rest);
                    }
                    FetchResult::NoMatch
                },
            }
        }
    }

    /// The position of the edge labelled `k`, if there is one.
    fn child_index(&self, k: &K) -> (r: Option<usize>)
        where K: EdgeLabel
        ensures
            match r {
                Some(i) => i < self.children.len() && self.children@[i as int].0 == *k,
                None => self.child(*k) is None,
            },
    {
        let mut i: usize = 0;
        while i < self.children.len()
            invariant
                i <= self.children.len(),
                forall|j: int| 0 <= j < i ==> self.children@[j].0 != *k,
            decreases self.children.len() - i,
        {
            if self.children[i].0.same_label(k) {
                return Some(i);
            }
            i = i + 1;
        }
        None
    }
}

} // verus!
