//! Ordered values, and sets that keep their items in ascending order.
use vstd::prelude::*;

verus! {

/// Whether text `a` comes before text `b`, from position `k` on: by the first character in which
/// they differ, and the shorter one first where there is none.
pub open spec fn text_before_from(a: Seq<char>, b: Seq<char>, k: int) -> bool
    decreases a.len() - k,
{
    if k >= b.len() {
        false
    } else if k >= a.len() {
        true
    } else if a[k] != b[k] {
        (a[k] as int) < (b[k] as int)
    } else {
        text_before_from(a, b, k + 1)
    }
}

/// Whether text `a` comes before text `b`.
pub open spec fn text_before(a: Seq<char>, b: Seq<char>) -> bool {
    text_before_from(a, b, 0)
}

proof fn text_order_from(a: Seq<char>, b: Seq<char>, c: Seq<char>, k: int)
    requires
        0 <= k,
    ensures
        !text_before_from(a, a, k),
        text_before_from(a, b, k) && text_before_from(b, c, k) ==> text_before_from(a, c, k),
        text_before_from(a, b, k) ==> !text_before_from(b, a, k),
        k <= a.len() && k <= b.len() && (forall|i: int| 0 <= i < k ==> a[i] == b[i]) ==> a == b
            || text_before_from(a, b, k) || text_before_from(b, a, k),
    decreases a.len() - k,
{
    if k < a.len() {
        text_order_from(a, b, c, k + 1);
    }
    if k <= a.len() && k <= b.len() && (forall|i: int| 0 <= i < k ==> a[i] == b[i]) {
        if k == a.len() && k == b.len() {
            assert(a =~= b);
        } else if k < a.len() && k < b.len() && a[k] == b[k] {
            assert(forall|i: int| 0 <= i < k + 1 ==> a[i] == b[i]);
        } else if k < a.len() && k < b.len() {
            assert(a[k] as int != b[k] as int);
        }
    }
}

/// Whether text `a` comes before text `b`.
pub fn text_is_before(a: &String, b: &String) -> (r: bool)
    ensures
        r == text_before(a@, b@),
{
    let x = a.as_str();
    let y = b.as_str();
    let n: usize = x.unicode_len();
    let m: usize = y.unicode_len();
    let mut k: usize = 0;
    while k < n && k < m
        invariant
            x@ == a@,
            y@ == b@,
            n == a@.len(),
            m == b@.len(),
            k <= n,
            k <= m,
            text_before(a@, b@) == text_before_from(a@, b@, k as int),
        decreases n - k,
    {
        let p: char = x.get_char(k);
        let q: char = y.get_char(k);
        if p != q {
            return (p as u32) < (q as u32);
        }
        k = k + 1;
    }
    k < m
}

/// A type whose values have a strict total order.
pub trait Ordered: View + Sized {
    /// Whether `a` comes before `b`.
    spec fn before(a: Self::V, b: Self::V) -> bool;

    /// The order is strict, transitive and total.
    proof fn order_is_total(a: Self::V, b: Self::V, c: Self::V)
        ensures
            !Self::before(a, a),
            Self::before(a, b) && Self::before(b, c) ==> Self::before(a, c),
            Self::before(a, b) ==> !Self::before(b, a),
            a == b || Self::before(a, b) || Self::before(b, a),
    ;

    /// Whether this value comes before another.
    fn is_before(&self, other: &Self) -> (r: bool)
        ensures
            r == Self::before(self@, other@),
    ;
}

impl Ordered for u32 {
    open spec fn before(a: u32, b: u32) -> bool {
        a < b
    }

    proof fn order_is_total(a: u32, b: u32, c: u32) {
    }

    fn is_before(&self, other: &Self) -> (r: bool) {
        *self < *other
    }
}

impl Ordered for usize {
    open spec fn before(a: usize, b: usize) -> bool {
        a < b
    }

    proof fn order_is_total(a: usize, b: usize, c: usize) {
    }

    fn is_before(&self, other: &Self) -> (r: bool) {
        *self < *other
    }
}

impl Ordered for String {
    open spec fn before(a: Seq<char>, b: Seq<char>) -> bool {
        text_before(a, b)
    }

    proof fn order_is_total(a: Seq<char>, b: Seq<char>, c: Seq<char>) {
        text_order_from(a, b, c, 0);
        assert(Self::before(a, a) == text_before(a, a));
        assert(Self::before(a, b) == text_before(a, b));
        assert(Self::before(b, a) == text_before(b, a));
        assert(Self::before(b, c) == text_before(b, c));
        assert(Self::before(a, c) == text_before(a, c));
    }

    fn is_before(&self, other: &Self) -> (r: bool) {
        text_is_before(self, other)
    }
}

/// The views of a sequence of values.
pub open spec fn views<T: View>(s: Seq<T>) -> Seq<T::V> {
    Seq::new(s.len(), |i: int| s[i]@)
}

/// Whether a sequence is in strictly ascending order.
pub open spec fn ascending<T: Ordered>(s: Seq<T::V>) -> bool {
    forall|i: int, j: int| 0 <= i < j < s.len() ==> T::before(#[trigger] s[i], #[trigger] s[j])
}

/// Whether a sequence lists a set in ascending order.
pub open spec fn lists<T: Ordered>(q: Seq<T::V>, s: Set<T::V>) -> bool {
    ascending::<T>(q) && q.to_set() == s
}

/// The items of a set in ascending order.
pub open spec fn listing<T: Ordered>(s: Set<T::V>) -> Seq<T::V> {
    choose|q: Seq<T::V>| lists::<T>(q, s)
}

/// A set is listed in one way only.
pub proof fn a_listing_is_unique<T: Ordered>(p: Seq<T::V>, q: Seq<T::V>)
    requires
        ascending::<T>(p),
        ascending::<T>(q),
        p.to_set() == q.to_set(),
    ensures
        p == q,
    decreases p.len(),
{
    let s = p.to_set();
    if p.len() == 0 {
        if q.len() > 0 {
            assert(q.contains(q[0]));
            assert(s.contains(q[0]));
            assert(p.contains(q[0]));
        }
        assert(p =~= q);
    } else {
        let x = p.last();
        assert(p[p.len() - 1] == x);
        assert(p.contains(x));
        assert(s.contains(x));
        assert(q.contains(x));
        let y = q.last();
        assert(q[q.len() - 1] == y);
        assert(q.contains(y));
        assert(q.to_set().contains(y));
        assert(p.contains(y));
        let j = choose|j: int| 0 <= j < q.len() && q[j] == x;
        let i = choose|i: int| 0 <= i < p.len() && p[i] == y;
        T::order_is_total(x, y, x);
        assert(x == y);
        let p1 = p.drop_last();
        let q1 = q.drop_last();
        assert(ascending::<T>(p1)) by {
            assert forall|a: int, b: int| 0 <= a < b < p1.len() implies T::before(
                #[trigger] p1[a],
                #[trigger] p1[b],
            ) by {
                assert(T::before(p[a], p[b]));
            }
        }
        assert(ascending::<T>(q1)) by {
            assert forall|a: int, b: int| 0 <= a < b < q1.len() implies T::before(
                #[trigger] q1[a],
                #[trigger] q1[b],
            ) by {
                assert(T::before(q[a], q[b]));
            }
        }
        assert forall|v: T::V| p1.to_set().contains(v) <==> q1.to_set().contains(v) by {
            if p1.contains(v) {
                let a = choose|a: int| 0 <= a < p1.len() && p1[a] == v;
                assert(p[a] == v);
                assert(p.contains(v));
                assert(p.to_set().contains(v));
                assert(q.contains(v));
                let b = choose|b: int| 0 <= b < q.len() && q[b] == v;
                if b == q.len() - 1 {
                    assert(T::before(p[a], p[p.len() - 1]));
                    T::order_is_total(x, x, x);
                }
                assert(q1[b] == v);
            }
            if q1.contains(v) {
                let b = choose|b: int| 0 <= b < q1.len() && q1[b] == v;
                assert(q[b] == v);
                assert(q.contains(v));
                assert(q.to_set().contains(v));
                assert(p.contains(v));
                let a = choose|a: int| 0 <= a < p.len() && p[a] == v;
                if a == p.len() - 1 {
                    assert(T::before(q[b], q[q.len() - 1]));
                    T::order_is_total(x, x, x);
                }
                assert(p1[a] == v);
            }
        }
        assert(p1.to_set() =~= q1.to_set());
        a_listing_is_unique::<T>(p1, q1);
        assert(p =~= p1.push(x));
        assert(q =~= q1.push(y));
    }
}

/// A set that keeps its items in ascending order.
pub struct SortedSet<T> {
    pub items: Vec<T>,
}

impl<T: Ordered> View for SortedSet<T> {
    type V = Set<T::V>;

    open spec fn view(&self) -> Set<T::V> {
        views(self.items@).to_set()
    }
}

impl<T: Ordered> SortedSet<T> {
    /// Whether the items are in ascending order.
    pub open spec fn wf(&self) -> bool {
        ascending::<T>(views(self.items@))
    }

    /// The items are the set's listing.
    pub proof fn items_are_the_listing(&self)
        requires
            self.wf(),
        ensures
            views(self.items@) == listing::<T>(self@),
            lists::<T>(listing::<T>(self@), self@),
    {
        assert(lists::<T>(views(self.items@), self@));
        a_listing_is_unique::<T>(views(self.items@), listing::<T>(self@));
    }

    /// A set with nothing in it.
    pub fn new() -> (r: Self)
        ensures
            r.wf(),
            r@ == Set::<T::V>::empty(),
            r.items@.len() == 0,
    {
        let r = SortedSet { items: Vec::new() };
        proof {
            assert(r@ =~= Set::<T::V>::empty());
        }
        r
    }

    /// The position of the first item that does not come before `x`.
    fn place(&self, x: &T) -> (r: usize)
        requires
            self.wf(),
        ensures
            r <= self.items@.len(),
            forall|i: int| 0 <= i < r ==> T::before(#[trigger] self.items@[i]@, x@),
            r < self.items@.len() ==> !T::before(self.items@[r as int]@, x@),
    {
        let mut i: usize = 0;
        while i < self.items.len()
            invariant
                i <= self.items@.len(),
                forall|j: int| 0 <= j < i ==> T::before(#[trigger] self.items@[j]@, x@),
            decreases self.items@.len() - i,
        {
            if !self.items[i].is_before(x) {
                return i;
            }
            i = i + 1;
        }
        i
    }

    /// Whether the set holds a value.
    pub fn contains(&self, x: &T) -> (r: bool)
        requires
            self.wf(),
        ensures
            r == self@.contains(x@),
    {
        let p: usize = self.place(x);
        let ghost v = views(self.items@);
        if p < self.items.len() && !x.is_before(&self.items[p]) {
            proof {
                T::order_is_total(v[p as int], x@, x@);
                assert(v[p as int] == x@);
            }
            true
        } else {
            proof {
                if v.contains(x@) {
                    let i = choose|i: int| 0 <= i < v.len() && v[i] == x@;
                    T::order_is_total(x@, x@, x@);
                    if i < p {
                        assert(T::before(self.items@[i]@, x@));
                    } else if i > p {
                        assert(T::before(v[p as int], v[i]));
                    } else {
                        T::order_is_total(v[p as int], x@, x@);
                    }
                }
            }
            false
        }
    }

    /// Adds a value, unless the set holds it.
    pub fn insert(&mut self, x: T)
        requires
            old(self).wf(),
        ensures
            final(self).wf(),
            final(self)@ == old(self)@.insert(x@),
    {
        let p: usize = self.place(&x);
        let ghost v = views(self.items@);
        let ghost xv = x@;
        if p < self.items.len() && !x.is_before(&self.items[p]) {
            proof {
                T::order_is_total(v[p as int], xv, xv);
                assert(v.contains(v[p as int]));
                assert(self@ =~= old(self)@.insert(xv));
            }
            return ;
        }
        self.items.insert(p, x);
        proof {
            let w = views(self.items@);
            assert(w =~= v.insert(p as int, xv));
            assert forall|i: int, j: int| 0 <= i < j < w.len() implies T::before(
                #[trigger] w[i],
                #[trigger] w[j],
            ) by {
                if i < p && j < p {
                    assert(w[i] == v[i] && w[j] == v[j]);
                } else if i < p && j == p {
                    assert(w[i] == v[i]);
                    assert(T::before(old(self).items@[i]@, xv));
                } else if i < p && j > p {
                    assert(w[i] == v[i] && w[j] == v[j - 1]);
                } else if i == p {
                    assert(w[j] == v[j - 1]);
                    T::order_is_total(xv, v[p as int], v[j - 1]);
                    if j - 1 > p {
                        assert(T::before(v[p as int], v[j - 1]));
                    }
                } else {
                    assert(w[i] == v[i - 1] && w[j] == v[j - 1]);
                }
            }
            assert forall|a: T::V| w.contains(a) <==> v.contains(a) || a == xv by {
                if v.contains(a) {
                    let k = choose|k: int| 0 <= k < v.len() && v[k] == a;
                    if k < p {
                        assert(w[k] == a);
                    } else {
                        assert(w[k + 1] == a);
                    }
                }
                assert(w[p as int] == xv);
                if w.contains(a) {
                    let k = choose|k: int| 0 <= k < w.len() && w[k] == a;
                    if k < p {
                        assert(v[k] == a);
                    } else if k > p {
                        assert(v[k - 1] == a);
                    }
                }
            }
            assert(self@ =~= old(self)@.insert(xv));
        }
    }
}

} // verus!
