//! Interval search tree implementation.

use vstd::prelude::*;

verus! {

broadcast use vstd::seq_lib::group_to_multiset_ensures;

/// A Bound represents the limit of an [Interval].
pub trait Bound: Copy {}

impl Bound for u64 {}

/// True if, and only if, `bound` lies between `lo` and `hi`, both included.
pub open spec fn bounds_contain(lo: u64, hi: u64, bound: u64) -> bool {
    lo <= bound && bound <= hi
}

/// True if, and only if, one of the spans contains a limit of the other.
pub open spec fn spans_intersect(a_lo: u64, a_hi: u64, b_lo: u64, b_hi: u64) -> bool {
    ||| bounds_contain(a_lo, a_hi, b_lo)
    ||| bounds_contain(a_lo, a_hi, b_hi)
    ||| bounds_contain(b_lo, b_hi, a_lo)
    ||| bounds_contain(b_lo, b_hi, a_hi)
}

/// The larger of two bounds.
pub open spec fn max_bound(a: u64, b: u64) -> u64 {
    if a < b {
        b
    } else {
        a
    }
}

/// An Interval is anything delimited by two bounds.
pub trait Interval: Sized + Clone {
    /// The lowest bound of the interval.
    spec fn spec_lo(&self) -> u64;

    /// The highest bound of the interval.
    spec fn spec_hi(&self) -> u64;

    /// Retrives the lowest bound in the interval.
    fn lo(&self) -> (bound: u64)
        ensures
            bound == self.spec_lo(),
    ;

    /// Retrives the higher bound in the interval.
    fn hi(&self) -> (bound: u64)
        ensures
            bound == self.spec_hi(),
    ;

    /// Returns true if, and only if, the given bound is in self.
    fn contains(&self, bound: u64) -> (r: bool)
        ensures
            r == bounds_contain(self.spec_lo(), self.spec_hi(), bound),
    {
        self.lo() <= bound && bound <= self.hi()
    }

    /// Returns true if, and only if, self intersects other.
    fn intersects(&self, other: &Self) -> (r: bool)
        ensures
            r == spans_intersect(self.spec_lo(), self.spec_hi(), other.spec_lo(), other.spec_hi()),
    {
        self.contains(other.lo()) || self.contains(other.hi()) || other.contains(self.lo())
            || other.contains(self.hi())
    }
}

/// True if, and only if, the intervals `a` and `b` intersect.
pub open spec fn overlaps<I: Interval>(a: I, b: I) -> bool {
    spans_intersect(a.spec_lo(), a.spec_hi(), b.spec_lo(), b.spec_hi())
}

/// An interval is proper when its lowest bound is not above its highest one.
pub open spec fn proper<I: Interval>(a: I) -> bool {
    a.spec_lo() <= a.spec_hi()
}

/// Every interval in the sequence is proper.
pub open spec fn all_proper<I: Interval>(s: Seq<I>) -> bool {
    forall|i: int| 0 <= i < s.len() ==> proper(#[trigger] s[i])
}

/// Some interval in the sequence intersects `q`.
pub open spec fn any_overlap<I: Interval>(s: Seq<I>, q: I) -> bool {
    exists|i: int| 0 <= i < s.len() && overlaps(#[trigger] s[i], q)
}

/// The intervals of the sequence are sorted by their lowest bound.
pub open spec fn sorted_by_lo<I: Interval>(s: Seq<I>) -> bool {
    forall|i: int, j: int| 0 <= i <= j < s.len() ==> (#[trigger] s[i]).spec_lo() <= (#[trigger] s[j]).spec_lo()
}

/// The multiset of `a + [v] + b` holds the elements of `a`, `v` and those of `b`.
proof fn lemma_ms_concat3<A>(a: Seq<A>, v: A, b: Seq<A>)
    ensures
        (a + seq![v] + b).to_multiset() =~= a.to_multiset().add(b.to_multiset()).insert(v),
{
    broadcast use vstd::multiset::group_multiset_axioms;

    vstd::seq_lib::lemma_multiset_commutative(a + seq![v], b);
    vstd::seq_lib::lemma_multiset_commutative(a, seq![v]);
    assert(seq![v] =~= Seq::<A>::empty().push(v));
}

/// When the multiset of `t` is that of `s` plus `x`, every element of `t` is
/// either `x` or an element of `s`.
proof fn lemma_ms_insert_members<A>(s: Seq<A>, t: Seq<A>, x: A)
    requires
        t.to_multiset() == s.to_multiset().insert(x),
    ensures
        forall|i: int| 0 <= i < t.len() ==> #[trigger] t[i] == x || s.contains(t[i]),
{
    broadcast use vstd::multiset::group_multiset_axioms;

    assert forall|i: int| 0 <= i < t.len() implies #[trigger] t[i] == x || s.contains(t[i]) by {
        assert(t.contains(t[i]));
        assert(t.to_multiset().count(t[i]) > 0);
        if t[i] != x {
            assert(s.to_multiset().count(t[i]) > 0);
        }
    }
}

/// An interval of `a + [v] + b` intersects `q` exactly when one of `a`, `v`
/// or `b` does; and all of them are proper when the whole is.
proof fn lemma_concat3_overlap<I: Interval>(a: Seq<I>, v: I, b: Seq<I>, q: I)
    ensures
        any_overlap(a + seq![v] + b, q) == (any_overlap(a, q) || overlaps(v, q) || any_overlap(
            b,
            q,
        )),
        all_proper(a + seq![v] + b) ==> all_proper(a) && proper(v) && all_proper(b),
{
    let s = a + seq![v] + b;
    if any_overlap(s, q) {
        let i = choose|i: int| 0 <= i < s.len() && overlaps(#[trigger] s[i], q);
        if i < a.len() {
            assert(s[i] == a[i]);
        } else if i == a.len() {
            assert(s[i] == v);
        } else {
            assert(s[i] == b[i - a.len() - 1]);
        }
    }
    if any_overlap(a, q) {
        let i = choose|i: int| 0 <= i < a.len() && overlaps(#[trigger] a[i], q);
        assert(s[i] == a[i]);
    }
    if overlaps(v, q) {
        assert(s[a.len() as int] == v);
    }
    if any_overlap(b, q) {
        let i = choose|i: int| 0 <= i < b.len() && overlaps(#[trigger] b[i], q);
        assert(s[a.len() + 1 + i] == b[i]);
    }
    if all_proper(s) {
        assert forall|i: int| 0 <= i < a.len() implies proper(#[trigger] a[i]) by {
            assert(s[i] == a[i]);
        }
        assert(s[a.len() as int] == v);
        assert forall|i: int| 0 <= i < b.len() implies proper(#[trigger] b[i]) by {
            assert(s[a.len() + 1 + i] == b[i]);
        }
    }
}

/// A Node is the minimum unit of information in an interval search tree.
#[derive(Debug, PartialEq)]
pub struct Node<Intv: Interval> {
    pub value: Intv,
    pub max: u64,
    pub left: Option<Box<Node<Intv>>>,
    pub right: Option<Box<Node<Intv>>>,
}

impl<Intv: Interval> Node<Intv> {
    /// The intervals of an optional subtree, in order.
    pub open spec fn subtree(n: Option<Box<Node<Intv>>>) -> Seq<Intv>
        decreases n,
    {
        match n {
            Some(b) => b.intervals_seq(),
            None => Seq::empty(),
        }
    }

    /// The intervals of the tree rooted by self, in order: the left subtree,
    /// the value of self and the right subtree.
    pub open spec fn intervals_seq(self) -> Seq<Intv>
        decreases self,
    {
        Self::subtree(self.left) + seq![self.value] + Self::subtree(self.right)
    }

    /// The interval held by the root of the tree.
    pub open spec fn spec_value(self) -> Intv {
        self.value
    }

    /// The maximum bound recorded at the root of the tree.
    pub open spec fn spec_max(self) -> u64 {
        self.max
    }

    /// The maximum recorded by an optional subtree, 0 when there is none.
    pub open spec fn subtree_max(n: Option<Box<Node<Intv>>>) -> u64 {
        match n {
            Some(b) => b.max,
            None => 0,
        }
    }

    /// Every node records the highest bound of the tree it roots.
    pub open spec fn max_ok(self) -> bool
        decreases self,
    {
        &&& self.max == max_bound(
            self.value.spec_hi(),
            max_bound(Self::subtree_max(self.left), Self::subtree_max(self.right)),
        )
        &&& match self.left {
            Some(l) => l.max_ok(),
            None => true,
        }
        &&& match self.right {
            Some(r) => r.max_ok(),
            None => true,
        }
    }

    /// Every node holds the middle interval of the tree it roots: its left
    /// subtree holds half of them, rounded down.
    pub open spec fn centered(self) -> bool
        decreases self,
    {
        &&& Self::subtree(self.left).len() == self.intervals_seq().len() / 2
        &&& match self.left {
            Some(l) => l.centered(),
            None => true,
        }
        &&& match self.right {
            Some(r) => r.centered(),
            None => true,
        }
    }

    /// Every interval in the left subtree of a node starts no later than the
    /// node's own interval, and every interval in the right subtree no sooner.
    pub open spec fn ordered(self) -> bool
        decreases self,
    {
        &&& match self.left {
            Some(l) => {
                &&& l.ordered()
                &&& forall|i: int|
                    0 <= i < l.intervals_seq().len() ==> (#[trigger] l.intervals_seq()[i]).spec_lo()
                        <= self.value.spec_lo()
            },
            None => true,
        }
        &&& match self.right {
            Some(r) => {
                &&& r.ordered()
                &&& forall|i: int|
                    0 <= i < r.intervals_seq().len() ==> self.value.spec_lo() <= (
                    #[trigger] r.intervals_seq()[i]).spec_lo()
            },
            None => true,
        }
    }

    /// Every interval in the left subtree of a node starts strictly sooner
    /// than the node's own interval, and every interval in the right subtree
    /// no sooner: the order that inserting one interval after another keeps.
    pub open spec fn strictly_ordered(self) -> bool
        decreases self,
    {
        &&& match self.left {
            Some(l) => {
                &&& l.strictly_ordered()
                &&& forall|i: int|
                    0 <= i < l.intervals_seq().len() ==> (#[trigger] l.intervals_seq()[i]).spec_lo()
                        < self.value.spec_lo()
            },
            None => true,
        }
        &&& match self.right {
            Some(r) => {
                &&& r.strictly_ordered()
                &&& forall|i: int|
                    0 <= i < r.intervals_seq().len() ==> self.value.spec_lo() <= (
                    #[trigger] r.intervals_seq()[i]).spec_lo()
            },
            None => true,
        }
    }

    /// A well-formed tree: correct maximums and ordered by lowest bound.
    pub open spec fn wf(self) -> bool {
        self.max_ok() && self.ordered()
    }

    /// The intervals of an optional subtree that intersect `q`, in reverse order.
    pub open spec fn subtree_overlapping(n: Option<Box<Node<Intv>>>, q: Intv) -> Seq<Intv>
        decreases n,
    {
        match n {
            Some(b) => b.overlapping(q),
            None => Seq::empty(),
        }
    }

    /// The intervals of the tree that intersect `q`, in reverse order: the
    /// right subtree, the value of self and the left subtree.
    pub open spec fn overlapping(self, q: Intv) -> Seq<Intv>
        decreases self,
    {
        Self::subtree_overlapping(self.right, q) + (if overlaps(self.value, q) {
            seq![self.value]
        } else {
            Seq::empty()
        }) + Self::subtree_overlapping(self.left, q)
    }

    /// The recorded maximum is an upper bound of every highest bound in the
    /// tree, and it is reached by one of them.
    pub proof fn lemma_max_bounds(self)
        requires
            self.max_ok(),
        ensures
            forall|i: int|
                0 <= i < self.intervals_seq().len() ==> (#[trigger] self.intervals_seq()[i]).spec_hi()
                    <= self.max,
            exists|i: int|
                0 <= i < self.intervals_seq().len() && (#[trigger] self.intervals_seq()[i]).spec_hi()
                    == self.max,
        decreases self,
    {
        let l = Self::subtree(self.left);
        let r = Self::subtree(self.right);
        let s = self.intervals_seq();
        assert(s == l + seq![self.value] + r);
        if let Some(ln) = self.left {
            ln.lemma_max_bounds();
        }
        if let Some(rn) = self.right {
            rn.lemma_max_bounds();
        }
        assert forall|i: int| 0 <= i < s.len() implies (#[trigger] s[i]).spec_hi() <= self.max by {
            if i < l.len() {
                assert(s[i] == l[i]);
            } else if i == l.len() {
                assert(s[i] == self.value);
            } else {
                assert(s[i] == r[i - l.len() - 1]);
            }
        }
        if self.max == self.value.spec_hi() {
            assert(s[l.len() as int] == self.value);
        } else if self.left.is_some() && self.max == Self::subtree_max(self.left) {
            let ln = self.left.unwrap();
            let j = choose|j: int| 0 <= j < l.len() && (#[trigger] l[j]).spec_hi() == ln.max;
            assert(s[j] == l[j]);
        } else {
            let rn = self.right.unwrap();
            let j = choose|j: int| 0 <= j < r.len() && (#[trigger] r[j]).spec_hi() == rn.max;
            assert(s[l.len() + 1 + j] == r[j]);
        }
    }

    /// Every interval that the tree yields as overlapping `q` is one of its
    /// intervals and intersects `q`; and, when every interval is proper,
    /// every interval of the tree that intersects `q` is yielded.
    pub proof fn lemma_overlapping_members(self, q: Intv)
        ensures
            forall|k: int|
                0 <= k < self.overlapping(q).len() ==> overlaps(
                    #[trigger] self.overlapping(q)[k],
                    q,
                ) && self.intervals_seq().contains(self.overlapping(q)[k]),
            forall|i: int|
                0 <= i < self.intervals_seq().len() && overlaps(#[trigger] self.intervals_seq()[i], q)
                    ==> self.overlapping(q).contains(self.intervals_seq()[i]),
        decreases self,
    {
        let l = Self::subtree(self.left);
        let r = Self::subtree(self.right);
        let s = self.intervals_seq();
        let ol = Self::subtree_overlapping(self.left, q);
        let or = Self::subtree_overlapping(self.right, q);
        let mid = if overlaps(self.value, q) {
            seq![self.value]
        } else {
            Seq::<Intv>::empty()
        };
        let o = self.overlapping(q);
        assert(o == or + mid + ol);
        assert(s == l + seq![self.value] + r);
        if let Some(ln) = self.left {
            ln.lemma_overlapping_members(q);
        }
        if let Some(rn) = self.right {
            rn.lemma_overlapping_members(q);
        }
        assert forall|k: int| 0 <= k < o.len() implies overlaps(#[trigger] o[k], q) && s.contains(
            o[k],
        ) by {
            if k < or.len() {
                let rn = self.right.unwrap();
                assert(or == rn.overlapping(q) && r == rn.intervals_seq());
                assert(o[k] == or[k]);
                assert(overlaps(rn.overlapping(q)[k], q) && rn.intervals_seq().contains(
                    rn.overlapping(q)[k],
                ));
                let j = choose|j: int| 0 <= j < r.len() && r[j] == or[k];
                assert(s[l.len() + 1 + j] == r[j]);
            } else if k < or.len() + mid.len() {
                assert(o[k] == self.value);
                assert(s[l.len() as int] == self.value);
            } else {
                let ln = self.left.unwrap();
                let kk = k - or.len() - mid.len();
                assert(ol == ln.overlapping(q) && l == ln.intervals_seq());
                assert(o[k] == ol[kk]);
                assert(overlaps(ln.overlapping(q)[kk], q) && ln.intervals_seq().contains(
                    ln.overlapping(q)[kk],
                ));
                let j = choose|j: int| 0 <= j < l.len() && l[j] == ol[kk];
                assert(s[j] == l[j]);
            }
        }
        assert forall|i: int| 0 <= i < s.len() && overlaps(#[trigger] s[i], q) implies o.contains(
            s[i],
        ) by {
            if i < l.len() {
                let ln = self.left.unwrap();
                assert(ol == ln.overlapping(q) && l == ln.intervals_seq());
                assert(s[i] == l[i]);
                assert(overlaps(ln.intervals_seq()[i], q));
                assert(ln.overlapping(q).contains(ln.intervals_seq()[i]));
                let j = choose|j: int| 0 <= j < ol.len() && ol[j] == l[i];
                assert(o[or.len() + mid.len() + j] == ol[j]);
            } else if i == l.len() {
                assert(s[i] == self.value);
                assert(o[or.len() as int] == self.value);
            } else {
                let rn = self.right.unwrap();
                let ii = i - l.len() - 1;
                assert(or == rn.overlapping(q) && r == rn.intervals_seq());
                assert(s[i] == r[ii]);
                assert(overlaps(rn.intervals_seq()[ii], q));
                assert(rn.overlapping(q).contains(rn.intervals_seq()[ii]));
                let j = choose|j: int| 0 <= j < or.len() && or[j] == r[ii];
                assert(o[j] == or[j]);
            }
        }
    }

    /// Creates a new node containing the given interval.
    pub fn new(interval: Intv) -> (node: Self)
        ensures
            node.value == interval,
            node.max == interval.spec_hi(),
            node.left is None,
            node.right is None,
            node.intervals_seq() == seq![interval],
            node.wf(),
            node.strictly_ordered(),
    {
        let max = interval.hi();
        let node = Node { max, value: interval, left: None, right: None };
        assert(node.intervals_seq() =~= seq![interval]);
        node
    }
    /// Inserts the given interval in the tree rooted by self.
    pub fn _with_interval(self, interval: Intv) -> (node: Self)
        ensures
            node == self.inserted(interval),
            node.value == self.value,
            node.max == max_bound(self.max, interval.spec_hi()),
            node.intervals_seq().to_multiset() == self.intervals_seq().to_multiset().insert(
                interval,
            ),
            self.max_ok() ==> node.max_ok(),
            self.ordered() ==> node.ordered(),
            self.strictly_ordered() ==> node.strictly_ordered(),
    {
        let mut node = self;
        node._insert(interval);
        node
    }

    /// The leaf that holds the given interval.
    pub open spec fn leaf(interval: Intv) -> Self {
        Node { value: interval, max: interval.spec_hi(), left: None, right: None }
    }

    /// The tree rooted by self once the given interval is added: it goes down
    /// to the left of a node when it starts sooner than the node's interval,
    /// to the right otherwise, until it becomes a leaf; every node on the way
    /// records its highest bound.
    pub open spec fn inserted(self, interval: Intv) -> Self
        decreases self,
    {
        let max = if self.max < interval.spec_hi() {
            interval.spec_hi()
        } else {
            self.max
        };
        if interval.spec_lo() < self.value.spec_lo() {
            Node {
                value: self.value,
                max,
                left: Some(
                    Box::new(
                        match self.left {
                            Some(l) => l.inserted(interval),
                            None => Self::leaf(interval),
                        },
                    ),
                ),
                right: self.right,
            }
        } else {
            Node {
                value: self.value,
                max,
                left: self.left,
                right: Some(
                    Box::new(
                        match self.right {
                            Some(r) => r.inserted(interval),
                            None => Self::leaf(interval),
                        },
                    ),
                ),
            }
        }
    }

    /// Adds the given interval in the tree rooted by self: to the left of a
    /// node when it starts sooner than the node's interval, to the right
    /// otherwise.
    pub fn _insert(&mut self, interval: Intv)
        ensures
            *final(self) == old(self).inserted(interval),
            final(self).value == old(self).value,
            final(self).max == max_bound(old(self).max, interval.spec_hi()),
            final(self).intervals_seq().to_multiset() == old(
                self,
            ).intervals_seq().to_multiset().insert(interval),
            old(self).max_ok() ==> final(self).max_ok(),
            old(self).ordered() ==> final(self).ordered(),
            old(self).strictly_ordered() ==> final(self).strictly_ordered(),
        decreases *old(self),
    {
        let ghost pre = *self;
        let hi = interval.hi();
        if self.max < hi {
            self.max = hi;
        }
        let lo = interval.lo();
        let value_lo = self.value.lo();
        if lo < value_lo {
            match self.left.take() {
                Some(mut node) => {
                    (&mut *node)._insert(interval);
                    self.left = Some(node);
                },
                None => {
                    self.left = Some(Box::new(Node::new(interval)));
                },
            }
            proof {
                let l0 = Self::subtree(pre.left);
                let l1 = Self::subtree(self.left);
                let r = Self::subtree(self.right);
                assert(l1.to_multiset() =~= l0.to_multiset().insert(interval));
                lemma_ms_concat3(l0, self.value, r);
                lemma_ms_concat3(l1, self.value, r);
                assert(self.intervals_seq() == l1 + seq![self.value] + r);
                assert(pre.intervals_seq() == l0 + seq![self.value] + r);
                if pre.ordered() {
                    lemma_ms_insert_members(l0, l1, interval);
                    let ln = self.left.unwrap();
                    assert(l1 == ln.intervals_seq());
                    assert forall|i: int|
                        0 <= i < ln.intervals_seq().len() implies (
                    #[trigger] ln.intervals_seq()[i]).spec_lo() <= self.value.spec_lo() by {
                        if l1[i] != interval {
                            let j = choose|j: int| 0 <= j < l0.len() && l0[j] == l1[i];
                            let pl = pre.left.unwrap();
                            assert(l0 == pl.intervals_seq());
                            assert(pl.intervals_seq()[j].spec_lo() <= self.value.spec_lo());
                        }
                    }
                }
                if pre.strictly_ordered() {
                    lemma_ms_insert_members(l0, l1, interval);
                    let ln = self.left.unwrap();
                    assert(l1 == ln.intervals_seq());
                    assert forall|i: int|
                        0 <= i < ln.intervals_seq().len() implies (
                    #[trigger] ln.intervals_seq()[i]).spec_lo() < self.value.spec_lo() by {
                        if l1[i] != interval {
                            let j = choose|j: int| 0 <= j < l0.len() && l0[j] == l1[i];
                            let pl = pre.left.unwrap();
                            assert(l0 == pl.intervals_seq());
                            assert(pl.intervals_seq()[j].spec_lo() < self.value.spec_lo());
                        }
                    }
                }
            }
        } else {
            match self.right.take() {
                Some(mut node) => {
                    (&mut *node)._insert(interval);
                    self.right = Some(node);
                },
                None => {
                    self.right = Some(Box::new(Node::new(interval)));
                },
            }
            proof {
                let r0 = Self::subtree(pre.right);
                let r1 = Self::subtree(self.right);
                let l = Self::subtree(self.left);
                assert(r1.to_multiset() =~= r0.to_multiset().insert(interval));
                lemma_ms_concat3(l, self.value, r0);
                lemma_ms_concat3(l, self.value, r1);
                assert(self.intervals_seq() == l + seq![self.value] + r1);
                assert(pre.intervals_seq() == l + seq![self.value] + r0);
                if pre.ordered() {
                    lemma_ms_insert_members(r0, r1, interval);
                    let rn = self.right.unwrap();
                    assert(r1 == rn.intervals_seq());
                    assert forall|i: int|
                        0 <= i < rn.intervals_seq().len() implies self.value.spec_lo() <= (
                    #[trigger] rn.intervals_seq()[i]).spec_lo() by {
                        if r1[i] != interval {
                            let j = choose|j: int| 0 <= j < r0.len() && r0[j] == r1[i];
                            let pr = pre.right.unwrap();
                            assert(r0 == pr.intervals_seq());
                            assert(self.value.spec_lo() <= pr.intervals_seq()[j].spec_lo());
                        }
                    }
                }
                if pre.strictly_ordered() {
                    lemma_ms_insert_members(r0, r1, interval);
                    let rn = self.right.unwrap();
                    assert(r1 == rn.intervals_seq());
                    assert forall|i: int|
                        0 <= i < rn.intervals_seq().len() implies self.value.spec_lo() <= (
                    #[trigger] rn.intervals_seq()[i]).spec_lo() by {
                        if r1[i] != interval {
                            let j = choose|j: int| 0 <= j < r0.len() && r0[j] == r1[i];
                            let pr = pre.right.unwrap();
                            assert(r0 == pr.intervals_seq());
                            assert(self.value.spec_lo() <= pr.intervals_seq()[j].spec_lo());
                        }
                    }
                }
            }
        }
    }

    /// When the left subtree reaches `q`'s lowest bound but holds no interval
    /// intersecting `q`, neither does the right subtree.
    proof fn lemma_prune_right(self, q: Intv)
        requires
            self.wf(),
            all_proper(self.intervals_seq()),
            proper(q),
            self.left is Some,
            q.spec_lo() <= self.left.unwrap().max,
            !any_overlap(Self::subtree(self.left), q),
        ensures
            !any_overlap(Self::subtree(self.right), q),
    {
        let ln = self.left.unwrap();
        let l = ln.intervals_seq();
        let r = Self::subtree(self.right);
        lemma_concat3_overlap(l, self.value, r, q);
        ln.lemma_max_bounds();
        let j = choose|j: int| 0 <= j < l.len() && (#[trigger] l[j]).spec_hi() == ln.max;
        assert(!overlaps(l[j], q));
        assert(proper(l[j]));
        assert(l[j].spec_lo() <= self.value.spec_lo());
        if let Some(rn) = self.right {
            assert forall|k: int| 0 <= k < r.len() implies !overlaps(#[trigger] r[k], q) by {
                assert(r[k] == rn.intervals_seq()[k]);
                assert(self.value.spec_lo() <= rn.intervals_seq()[k].spec_lo());
                assert(proper(r[k]));
            }
        }
    }

    /// When every interval of a subtree ends before `q` starts, none of them
    /// intersects `q`.
    proof fn lemma_prune_left(self, q: Intv)
        requires
            self.max_ok(),
            all_proper(self.intervals_seq()),
            proper(q),
            self.max < q.spec_lo(),
        ensures
            !any_overlap(self.intervals_seq(), q),
    {
        let s = self.intervals_seq();
        self.lemma_max_bounds();
        assert forall|k: int| 0 <= k < s.len() implies !overlaps(#[trigger] s[k], q) by {
            assert(proper(s[k]));
            assert(s[k].spec_hi() <= self.max);
        }
    }

    /// Returns true if, and only if, there is an interval in the tree that
    /// intersects the given one. The search skips the right subtree when the
    /// left one may hold an intersection, and the left subtree when all of its
    /// intervals end before the given one starts.
    pub fn _intersects(&self, interval: &Intv) -> (r: bool)
        ensures
            r ==> any_overlap(self.intervals_seq(), *interval),
            self.wf() && all_proper(self.intervals_seq()) && proper(*interval) ==> r == any_overlap(
                self.intervals_seq(),
                *interval,
            ),
        decreases self,
    {
        let ghost l = Self::subtree(self.left);
        let ghost rs = Self::subtree(self.right);
        proof {
            lemma_concat3_overlap(l, self.value, rs, *interval);
            assert(self.intervals_seq() == l + seq![self.value] + rs);
        }
        if self.value.intersects(interval) {
            return true;
        }
        match &self.left {
            Some(left) => {
                if interval.lo() <= left.max {
                    let found = left._intersects(interval);
                    proof {
                        if self.wf() && all_proper(self.intervals_seq()) && proper(*interval)
                            && !found {
                            self.lemma_prune_right(*interval);
                        }
                    }
                    return found;
                }
                proof {
                    if self.wf() && all_proper(self.intervals_seq()) && proper(*interval) {
                        left.lemma_prune_left(*interval);
                    }
                }
            },
            None => {},
        }
        match &self.right {
            Some(right) => right._intersects(interval),
            None => false,
        }
    }

    /// Every interval of a subtree is an interval of the tree.
    proof fn lemma_subtrees_in_seq(self)
        ensures
            forall|x: Intv| #[trigger]
                Self::subtree(self.left).contains(x) ==> self.intervals_seq().contains(x),
            forall|x: Intv| #[trigger]
                Self::subtree(self.right).contains(x) ==> self.intervals_seq().contains(x),
    {
        let l = Self::subtree(self.left);
        let r = Self::subtree(self.right);
        let s = self.intervals_seq();
        assert(s == l + seq![self.value] + r);
        assert forall|x: Intv| #[trigger] l.contains(x) implies s.contains(x) by {
            let j = choose|j: int| 0 <= j < l.len() && l[j] == x;
            assert(s[j] == l[j]);
        }
        assert forall|x: Intv| #[trigger] r.contains(x) implies s.contains(x) by {
            let j = choose|j: int| 0 <= j < r.len() && r[j] == x;
            assert(s[l.len() + 1 + j] == r[j]);
        }
    }

    /// Appends to `out` a reference to each interval of the tree rooted by
    /// `node` that intersects `interval`: those of the right subtree, then
    /// the node's own, then those of the left subtree, skipping the left
    /// subtree when all of its intervals end before `interval` starts.
    fn collect_intersections<'a>(node: &'a Node<Intv>, interval: &Intv, out: &mut Vec<&'a Intv>)
        ensures
            final(out)@.len() >= old(out)@.len(),
            final(out)@.subrange(0, old(out)@.len() as int) == old(out)@,
            forall|k: int|
                old(out)@.len() <= k < final(out)@.len() ==> overlaps(
                    *#[trigger] final(out)@[k],
                    *interval,
                ) && node.intervals_seq().contains(*final(out)@[k]),
            node.wf() && all_proper(node.intervals_seq()) && proper(*interval)
                ==> final(out)@.unref() == old(out)@.unref() + node.overlapping(*interval),
        decreases node,
    {
        let ghost start = out@;
        proof {
            node.lemma_subtrees_in_seq();
            lemma_concat3_overlap(
                Self::subtree(node.left),
                node.value,
                Self::subtree(node.right),
                *interval,
            );
            assert(node.intervals_seq() == Self::subtree(node.left) + seq![node.value]
                + Self::subtree(node.right));
        }
        if let Some(right) = &node.right {
            Self::collect_intersections(right, interval, out);
        }
        let ghost after_right = out@;
        proof {
            assert(after_right.subrange(0, start.len() as int) == start);
            assert forall|k: int| start.len() <= k < after_right.len() implies overlaps(
                *#[trigger] after_right[k],
                *interval,
            ) && node.intervals_seq().contains(*after_right[k]) by {
                if let Some(right) = node.right {
                    assert(Self::subtree(node.right).contains(*after_right[k]));
                }
            }
        }
        if node.value.intersects(interval) {
            out.push(&node.value);
            proof {
                assert(node.intervals_seq()[Self::subtree(node.left).len() as int] == node.value);
            }
        }
        let ghost after_value = out@;
        proof {
            assert(after_value.subrange(0, start.len() as int) =~= start);
            assert(after_value.subrange(0, after_right.len() as int) =~= after_right);
        }
        match &node.left {
            Some(left) => {
                if interval.lo() <= left.max {
                    Self::collect_intersections(left, interval, out);
                } else {
                    proof {
                        if node.wf() && all_proper(node.intervals_seq()) && proper(*interval) {
                            left.lemma_prune_left(*interval);
                            left.lemma_overlapping_members(*interval);
                            if left.overlapping(*interval).len() > 0 {
                                assert(overlaps(left.overlapping(*interval)[0], *interval));
                                let j = choose|j: int|
                                    0 <= j < left.intervals_seq().len()
                                        && left.intervals_seq()[j] == left.overlapping(
                                        *interval,
                                    )[0];
                                assert(overlaps(left.intervals_seq()[j], *interval));
                            }
                        }
                    }
                }
            },
            None => {},
        }
        proof {
            let fin = out@;
            assert(fin.subrange(0, after_value.len() as int) == after_value);
            assert(fin.subrange(0, start.len() as int) =~= start) by {
                assert forall|k: int| 0 <= k < start.len() implies fin[k] == start[k] by {
                    assert(fin.subrange(0, after_value.len() as int)[k] == fin[k]);
                }
            }
            assert forall|k: int| start.len() <= k < fin.len() implies overlaps(
                *#[trigger] fin[k],
                *interval,
            ) && node.intervals_seq().contains(*fin[k]) by {
                if k < after_value.len() {
                    assert(fin.subrange(0, after_value.len() as int)[k] == fin[k]);
                    if k < after_right.len() {
                        assert(after_value.subrange(0, after_right.len() as int)[k]
                            == after_value[k]);
                        assert(overlaps(*after_right[k], *interval));
                    }
                } else if let Some(left) = node.left {
                    assert(Self::subtree(node.left).contains(*fin[k]));
                }
            }
            if node.wf() && all_proper(node.intervals_seq()) && proper(*interval) {
                let mid = if overlaps(node.value, *interval) {
                    seq![node.value]
                } else {
                    Seq::<Intv>::empty()
                };
                assert(after_right.unref() =~= start.unref() + Self::subtree_overlapping(
                    node.right,
                    *interval,
                ));
                assert(after_value.unref() =~= after_right.unref() + mid);
                assert(fin.unref() =~= after_value.unref() + Self::subtree_overlapping(
                    node.left,
                    *interval,
                ));
                assert(node.overlapping(*interval) == Self::subtree_overlapping(
                    node.right,
                    *interval,
                ) + mid + Self::subtree_overlapping(node.left, *interval));
                assert(fin.unref() =~= start.unref() + node.overlapping(*interval));
            }
        }
    }

    /// Returns a reference to each interval in the tree overlapping the given
    /// one, in reverse order.
    pub fn _for_each_intersection<'a>(&'a self, interval: &Intv) -> (found: Vec<&'a Intv>)
        ensures
            forall|k: int|
                0 <= k < found@.len() ==> overlaps(*#[trigger] found@[k], *interval)
                    && self.intervals_seq().contains(*found@[k]),
            self.wf() && all_proper(self.intervals_seq()) && proper(*interval) ==> found@.unref()
                == self.overlapping(*interval),
    {
        let mut found = Vec::new();
        Self::collect_intersections(self, interval, &mut found);
        proof {
            assert(Seq::<&Intv>::empty().unref() =~= Seq::<Intv>::empty());
            assert(Seq::<Intv>::empty() + self.overlapping(*interval) =~= self.overlapping(
                *interval,
            ));
        }
        found
    }

    /// Returns the total amount of intervals in the tree.
    pub fn _count(&self) -> (count: usize)
        requires
            self.intervals_seq().len() <= usize::MAX,
        ensures
            count == self.intervals_seq().len(),
        decreases self,
    {
        let mut count: usize = 1;
        if let Some(left) = &self.left {
            count = count + left._count();
        }
        if let Some(right) = &self.right {
            count = count + right._count();
        }
        count
    }

    /// Appends to `out` a reference to each interval of the tree rooted by
    /// `node`, in order.
    fn collect_all<'a>(node: &'a Node<Intv>, out: &mut Vec<&'a Intv>)
        ensures
            final(out)@.unref() == old(out)@.unref() + node.intervals_seq(),
            final(out)@.len() == old(out)@.len() + node.intervals_seq().len(),
        decreases node,
    {
        let ghost start = out@;
        if let Some(left) = &node.left {
            Self::collect_all(left, out);
        }
        let ghost after_left = out@;
        out.push(&node.value);
        let ghost after_value = out@;
        if let Some(right) = &node.right {
            Self::collect_all(right, out);
        }
        proof {
            assert(after_left.unref() =~= start.unref() + Self::subtree(node.left));
            assert(after_value.unref() =~= after_left.unref() + seq![node.value]);
            assert(out@.unref() =~= after_value.unref() + Self::subtree(node.right));
            assert(out@.unref() =~= start.unref() + node.intervals_seq());
        }
    }
}

/// Builds a tree out of the given intervals, in the same order: the middle
/// interval becomes the root, the ones before it the left subtree and the ones
/// after it the right subtree.
fn build<Intv: Interval>(intervals: Vec<Intv>) -> (root: Option<Node<Intv>>)
    ensures
        root is None <==> intervals@.len() == 0,
        root matches Some(n) ==> n.intervals_seq() == intervals@ && n.max_ok() && n.centered() && (
        sorted_by_lo(intervals@) ==> n.ordered()),
    decreases intervals@.len(),
{
    if intervals.len() == 0 {
        return None;
    }
    let ghost all = intervals@;
    let center = intervals.len() / 2;
    let mut left = intervals;
    let mut right = left.split_off(center);
    let value = right.remove(0);
    let ghost lseq = left@;
    let ghost rseq = right@;
    proof {
        assert(all == lseq + seq![value] + rseq);
    }
    let left_node = build(left);
    let right_node = build(right);
    let left_max = match &left_node {
        Some(n) => n.max,
        None => 0,
    };
    let right_max = match &right_node {
        Some(n) => n.max,
        None => 0,
    };
    let hi = value.hi();
    let children_max = if left_max < right_max {
        right_max
    } else {
        left_max
    };
    let max = if hi < children_max {
        children_max
    } else {
        hi
    };
    let left_box = match left_node {
        Some(n) => Some(Box::new(n)),
        None => None,
    };
    let right_box = match right_node {
        Some(n) => Some(Box::new(n)),
        None => None,
    };
    let root = Node { value, max, left: left_box, right: right_box };
    proof {
        assert(Node::subtree(root.left) == lseq);
        assert(Node::subtree(root.right) == rseq);
        assert(root.intervals_seq() == all);
        if sorted_by_lo(all) {
            assert forall|i: int| 0 <= i < lseq.len() implies (#[trigger] lseq[i]).spec_lo()
                <= value.spec_lo() by {
                assert(all[i] == lseq[i]);
                assert(all[lseq.len() as int] == value);
            }
            assert forall|i: int| 0 <= i < rseq.len() implies value.spec_lo() <= (
            #[trigger] rseq[i]).spec_lo() by {
                assert(all[lseq.len() + 1 + i] == rseq[i]);
                assert(all[lseq.len() as int] == value);
            }
            assert forall|i: int, j: int| 0 <= i <= j < lseq.len() implies (
            #[trigger] lseq[i]).spec_lo() <= (#[trigger] lseq[j]).spec_lo() by {
                assert(all[i] == lseq[i] && all[j] == lseq[j]);
            }
            assert forall|i: int, j: int| 0 <= i <= j < rseq.len() implies (
            #[trigger] rseq[i]).spec_lo() <= (#[trigger] rseq[j]).spec_lo() by {
                assert(all[lseq.len() + 1 + i] == rseq[i] && all[lseq.len() + 1 + j] == rseq[j]);
            }
        }
    }
    Some(root)
}

/// A tree is determined by its intervals in order once every node records
/// its maximum and holds the middle interval: two such trees are equal.
pub proof fn lemma_centered_unique<Intv: Interval>(a: Option<Box<Node<Intv>>>, b: Option<Box<Node<Intv>>>)
    requires
        a matches Some(n) ==> n.centered() && n.max_ok(),
        b matches Some(n) ==> n.centered() && n.max_ok(),
        Node::subtree(a) == Node::subtree(b),
    ensures
        a == b,
    decreases a,
{
    match a {
        None => {
            if let Some(m) = b {
                assert(m.intervals_seq().len() > 0);
            }
        },
        Some(n) => {
            let m = b.unwrap();
            assert(n.intervals_seq().len() > 0);
            let s = n.intervals_seq();
            let half = (s.len() / 2) as int;
            assert(Node::subtree(n.left) =~= s.subrange(0, half));
            assert(Node::subtree(m.left) =~= s.subrange(0, half));
            assert(n.value == s[half]);
            assert(m.value == s[half]);
            assert(Node::subtree(n.right) =~= s.subrange(half + 1, s.len() as int));
            assert(Node::subtree(m.right) =~= s.subrange(half + 1, s.len() as int));
            lemma_centered_unique(n.left, m.left);
            lemma_centered_unique(n.right, m.right);
        },
    }
}

/// A tree strictly ordered, as inserting keeps it, is ordered, as the
/// queries need it.
pub proof fn lemma_strictly_ordered_is_ordered<Intv: Interval>(node: Node<Intv>)
    requires
        node.strictly_ordered(),
    ensures
        node.ordered(),
    decreases node,
{
    if let Some(l) = node.left {
        lemma_strictly_ordered_is_ordered(*l);
    }
    if let Some(r) = node.right {
        lemma_strictly_ordered_is_ordered(*r);
    }
}

/// An IntervalST represents an interval search tree that may be empty.
#[derive(Debug, PartialEq)]
pub struct IntervalST<Intv: Interval>(pub Option<Node<Intv>>);

impl<Intv: Interval> IntervalST<Intv> {
    /// The intervals in the tree, in order.
    pub open spec fn intervals_seq(self) -> Seq<Intv> {
        match self.0 {
            Some(n) => n.intervals_seq(),
            None => Seq::empty(),
        }
    }

    /// Every node of the tree records the highest bound of the tree it roots.
    pub open spec fn max_ok(self) -> bool {
        match self.0 {
            Some(n) => n.max_ok(),
            None => true,
        }
    }

    /// The tree is ordered by the lowest bound of its intervals.
    pub open spec fn ordered(self) -> bool {
        match self.0 {
            Some(n) => n.ordered(),
            None => true,
        }
    }

    /// Every node of the tree holds the middle interval of the tree it roots.
    pub open spec fn centered(self) -> bool {
        match self.0 {
            Some(n) => n.centered(),
            None => true,
        }
    }

    /// Creates a tree holding the given intervals in the same order: each
    /// node holds the middle interval of its share of the vector. The tree
    /// is ordered when the vector is sorted by lowest bound.
    pub fn from(value: Vec<Intv>) -> (tree: Self)
        ensures
            tree.intervals_seq() == value@,
            tree.max_ok(),
            tree.centered(),
            sorted_by_lo(value@) ==> tree.ordered(),
    {
        IntervalST(build(value))
    }

    /// Returns a reference to each interval in the tree, in order.
    pub fn for_each<'a>(&'a self) -> (all: Vec<&'a Intv>)
        ensures
            all@.unref() == self.intervals_seq(),
    {
        let mut all = Vec::new();
        if let Some(root) = &self.0 {
            Node::collect_all(root, &mut all);
        }
        proof {
            assert(Seq::<&Intv>::empty().unref() =~= Seq::<Intv>::empty());
            assert(all@.unref() =~= self.intervals_seq());
        }
        all
    }

    /// Returns a vector with a clone of each interval in the tree, in order.
    pub fn intervals(&self) -> (intervals: Vec<Intv>)
        ensures
            intervals@.len() == self.intervals_seq().len(),
            forall|i: int|
                0 <= i < intervals@.len() ==> cloned(self.intervals_seq()[i], #[trigger] intervals@[i]),
    {
        let all = self.for_each();
        let mut intervals: Vec<Intv> = Vec::new();
        let mut i: usize = 0;
        while i < all.len()
            invariant
                i <= all@.len(),
                all@.unref() == self.intervals_seq(),
                intervals@.len() == i,
                forall|k: int|
                    0 <= k < i ==> cloned(self.intervals_seq()[k], #[trigger] intervals@[k]),
            decreases all@.len() - i,
        {
            let interval = Intv::clone(all[i]);
            proof {
                assert(*all@[i as int] == self.intervals_seq()[i as int]);
            }
            intervals.push(interval);
            i = i + 1;
        }
        intervals
    }
}

impl<Intv: Interval> From<Intv> for Node<Intv> {
    /// Returns the leaf that holds the given interval.
    fn from(interval: Intv) -> (node: Self) {
        Node::new(interval)
    }
}

impl<Intv: Interval> vstd::std_specs::convert::FromSpecImpl<Intv> for Node<Intv> {
    open spec fn obeys_from_spec() -> bool {
        true
    }

    open spec fn from_spec(interval: Intv) -> Node<Intv> {
        Node { value: interval, max: interval.spec_hi(), left: None, right: None }
    }
}

impl<Intv: Interval> Default for IntervalST<Intv> {
    /// Returns an empty tree.
    fn default() -> (tree: Self)
        ensures
            tree.0 is None,
    {
        IntervalST(None)
    }
}

} // verus!
