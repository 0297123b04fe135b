//! The queue of upcoming pieces, refilled a shuffled bag at a time.

use super::tetrad::{Shape, Tetrad};
use rand::seq::SliceRandom;
use vstd::multiset::Multiset;
use vstd::prelude::*;
use vstd::seq_lib::{lemma_multiset_commutative, to_multiset_build, to_multiset_len};

verus! {

/// Shuffles the vector in place with `rand`'s `SliceRandom::shuffle`, driven
/// by the thread-local generator. The order that comes out is up to the
/// generator; what the shuffle promises is that it only swaps elements, so
/// every element is there as often as before.
#[verifier::external_body]
pub(crate) fn shuffle_shapes(bag: &mut Vec<Shape>)
    ensures
        final(bag)@.to_multiset() == old(bag)@.to_multiset(),
{
    let mut rng = rand::thread_rng();
    bag.shuffle(&mut rng);
}

/// The seven shapes, each once, in their fixed order.
pub open spec fn one_of_each() -> Seq<Shape> {
    seq![Shape::I, Shape::O, Shape::T, Shape::S, Shape::Z, Shape::J, Shape::L]
}

/// Whether `s` is a bag: seven shapes, each of the seven exactly once.
pub open spec fn is_bag(s: Seq<Shape>) -> bool {
    &&& s.len() == 7
    &&& forall|shape: Shape| #[trigger] s.to_multiset().count(shape) == 1
}

/// The `j`-th run of seven draws of `s`.
pub open spec fn chunk(s: Seq<Shape>, j: int) -> Seq<Shape> {
    s.subrange(7 * j, 7 * j + 7)
}

/// Whether `s` is a whole number of bags, one after the other.
pub open spec fn whole_bags(s: Seq<Shape>) -> bool {
    &&& s.len() % 7 == 0
    &&& forall|j: int| 0 <= j && 7 * j + 7 <= s.len() ==> is_bag(#[trigger] chunk(s, j))
}

/// The seven shapes in their fixed order are a bag.
pub proof fn lemma_one_of_each_is_bag()
    ensures
        is_bag(one_of_each()),
{
    let e = Seq::<Shape>::empty();
    let s1 = e.push(Shape::I);
    let s2 = s1.push(Shape::O);
    let s3 = s2.push(Shape::T);
    let s4 = s3.push(Shape::S);
    let s5 = s4.push(Shape::Z);
    let s6 = s5.push(Shape::J);
    let s7 = s6.push(Shape::L);
    assert(s7 =~= one_of_each());
    to_multiset_len(e);
    assert(e.to_multiset() =~= Multiset::<Shape>::empty()) by {
        assert(e.to_multiset().len() == 0);
    }
    to_multiset_build(e, Shape::I);
    to_multiset_build(s1, Shape::O);
    to_multiset_build(s2, Shape::T);
    to_multiset_build(s3, Shape::S);
    to_multiset_build(s4, Shape::Z);
    to_multiset_build(s5, Shape::J);
    to_multiset_build(s6, Shape::L);
    assert forall|shape: Shape| #[trigger] s7.to_multiset().count(shape) == 1 by {}
}

/// A whole number of bags followed by one more bag is a whole number of bags.
pub proof fn lemma_whole_bags_extend(s: Seq<Shape>, bag: Seq<Shape>)
    requires
        whole_bags(s),
        is_bag(bag),
    ensures
        whole_bags(s + bag),
{
    let t = s + bag;
    assert forall|j: int| 0 <= j && 7 * j + 7 <= t.len() implies is_bag(#[trigger] chunk(t, j)) by {
        if 7 * j + 7 <= s.len() {
            assert(chunk(t, j) =~= chunk(s, j));
        } else {
            assert(7 * j == s.len());
            assert(chunk(t, j) =~= bag);
        }
    }
}

/// In a sequence of whole bags, any two bags in a row (fourteen draws from
/// a bag boundary on) hold each of the seven shapes exactly twice.
pub proof fn lemma_pair_of_bags(s: Seq<Shape>, j: int, shape: Shape)
    requires
        whole_bags(s),
        0 <= j,
        7 * j + 14 <= s.len(),
    ensures
        s.subrange(7 * j, 7 * j + 14).to_multiset().count(shape) == 2,
{
    let a = chunk(s, j);
    let b = chunk(s, j + 1);
    assert(is_bag(a) && is_bag(b));
    assert(s.subrange(7 * j, 7 * j + 14) =~= a + b);
    lemma_multiset_commutative(a, b);
    assert(a.to_multiset().count(shape) == 1);
    assert(b.to_multiset().count(shape) == 1);
}

/// In a sequence of whole bags, thirteen draws in a row that cross one bag
/// boundary (that lie within two bags in a row) hold no shape three times.
pub proof fn lemma_no_triple(s: Seq<Shape>, j: int, start: int, shape: Shape)
    requires
        whole_bags(s),
        0 <= j,
        7 * j <= start,
        start + 13 <= 7 * j + 14,
        7 * j + 14 <= s.len(),
    ensures
        s.subrange(start, start + 13).to_multiset().count(shape) <= 2,
{
    let before = s.subrange(7 * j, start);
    let window = s.subrange(start, start + 13);
    let after = s.subrange(start + 13, 7 * j + 14);
    assert(s.subrange(7 * j, 7 * j + 14) =~= (before + window) + after);
    lemma_multiset_commutative(before + window, after);
    lemma_multiset_commutative(before, window);
    lemma_pair_of_bags(s, j, shape);
}

/// What a draw does to a queue: `t` is a new piece of the next shape in
/// line; it joins the draws made; the pieces behind it stay queued in
/// their order, behind them one new bag if fewer than seven were queued; and
/// at least six pieces are queued afterwards.
pub open spec fn draws(before: Queue, after: Queue, t: Tetrad) -> bool {
    &&& after.wf()
    &&& t == Tetrad::spawn(t.shape)
    &&& after.served() == before.served().push(t.shape)
    &&& before.upcoming().len() > 6 ==> seq![t.shape] + after.upcoming() == before.upcoming()
    &&& before.upcoming().len() <= 6 ==> exists|bag: Seq<Shape>|
        is_bag(bag) && seq![t.shape] + after.upcoming() == before.upcoming() + bag
    &&& after.upcoming().len() >= 6
}

/// A draw from a queue that is not empty yields the piece at its front.
pub proof fn lemma_draws_front(before: Queue, after: Queue, t: Tetrad)
    requires
        draws(before, after, t),
        before.upcoming().len() > 0,
    ensures
        t == Tetrad::spawn(before.upcoming()[0]),
{
    if before.upcoming().len() > 6 {
        assert((seq![t.shape] + after.upcoming())[0] == t.shape);
    } else {
        let bag = choose|bag: Seq<Shape>|
            is_bag(bag) && seq![t.shape] + after.upcoming() == before.upcoming() + bag;
        assert((seq![t.shape] + after.upcoming())[0] == t.shape);
        assert((before.upcoming() + bag)[0] == before.upcoming()[0]);
    }
}

/// The pieces to come, in a vector whose last element is drawn next.
pub struct Queue {
    pub tetrads: Vec<Tetrad>,
    /// The shapes drawn so far, first draw first.
    pub served: Ghost<Seq<Shape>>,
}

impl Queue {
    /// The shapes drawn from this queue so far, first draw first.
    pub open spec fn served(&self) -> Seq<Shape> {
        self.served@
    }

    /// The shapes still to come, next draw first.
    pub open spec fn upcoming(&self) -> Seq<Shape> {
        Seq::new(
            self.tetrads.len() as nat,
            |i: int| self.tetrads[self.tetrads.len() - 1 - i].shape,
        )
    }

    /// Every queued piece is a new piece of its shape, and the draws made
    /// so far followed by the draws to come are a whole number of bags.
    pub open spec fn wf(&self) -> bool {
        &&& forall|i: int|
            0 <= i < self.tetrads.len() ==> #[trigger] self.tetrads[i] == Tetrad::spawn(
                self.tetrads[i].shape,
            )
        &&& whole_bags(self.served() + self.upcoming())
    }

    /// One bag in an order that the generator picks. Whatever it picks, the
    /// result holds each of the seven shapes exactly once.
    pub fn new_shuffled_seven() -> (bag: Vec<Shape>)
        ensures
            is_bag(bag@),
    {
        let mut bag: Vec<Shape> = Vec::new();
        bag.push(Shape::I);
        bag.push(Shape::O);
        bag.push(Shape::T);
        bag.push(Shape::S);
        bag.push(Shape::Z);
        bag.push(Shape::J);
        bag.push(Shape::L);
        proof {
            assert(bag@ =~= one_of_each());
            lemma_one_of_each_is_bag();
        }
        shuffle_shapes(&mut bag);
        proof {
            to_multiset_len(bag@);
            to_multiset_len(one_of_each());
        }
        bag
    }

    /// A queue that holds one freshly shuffled bag.
    pub fn new() -> (q: Queue)
        ensures
            q.wf(),
            q.served() == Seq::<Shape>::empty(),
            is_bag(q.upcoming()),
    {
        let mut q = Queue { tetrads: Vec::new(), served: Ghost(Seq::empty()) };
        assert(q.served() + q.upcoming() =~= Seq::<Shape>::empty());
        let bag = Queue::new_shuffled_seven();
        q.refill(bag);
        assert(q.upcoming() =~= bag@);
        q
    }

    /// Appends `bag` behind the pieces that are already queued.
    pub fn refill(&mut self, bag: Vec<Shape>)
        requires
            old(self).wf(),
            is_bag(bag@),
        ensures
            final(self).wf(),
            final(self).served() == old(self).served(),
            final(self).upcoming() == old(self).upcoming() + bag@,
    {
        let ghost before = self.tetrads@;
        let mut fresh: Vec<Tetrad> = Vec::new();
        let mut i: usize = bag.len();
        while i > 0
            invariant
                i <= bag.len(),
                fresh.len() == bag.len() - i,
                forall|k: int|
                    0 <= k < fresh.len() ==> #[trigger] fresh[k] == Tetrad::spawn(
                        bag[bag.len() - 1 - k],
                    ),
            decreases i,
        {
            i -= 1;
            fresh.push(Tetrad::new(bag[i]));
        }
        fresh.append(&mut self.tetrads);
        self.tetrads = fresh;
        proof {
            assert(self.tetrads@ =~= Seq::new(7, |k: int| Tetrad::spawn(bag[6 - k])) + before);
            assert(self.upcoming() =~= old(self).upcoming() + bag@);
            assert(self.served() + self.upcoming() =~= (old(self).served() + old(
                self,
            ).upcoming()) + bag@);
            lemma_whole_bags_extend(old(self).served() + old(self).upcoming(), bag@);
        }
    }

    /// Draws the next piece of a queue that is not empty.
    pub fn take(&mut self) -> (t: Tetrad)
        requires
            old(self).wf(),
            old(self).upcoming().len() > 0,
        ensures
            final(self).wf(),
            t == Tetrad::spawn(old(self).upcoming()[0]),
            final(self).upcoming() == old(self).upcoming().drop_first(),
            final(self).served() == old(self).served().push(t.shape),
    {
        let t = match self.tetrads.pop() {
            Some(t) => t,
            None => vstd::pervasive::unreached(),
        };
        self.served = Ghost(self.served@.push(t.shape));
        proof {
            assert(t == old(self).tetrads[old(self).tetrads.len() - 1]);
            assert(self.upcoming() =~= old(self).upcoming().drop_first());
            assert(self.served() + self.upcoming() =~= old(self).served() + old(self).upcoming());
        }
        t
    }

    /// Draws the next piece. A queue with fewer than seven pieces first
    /// takes in a freshly shuffled bag behind them, so a draw never fails
    /// and at least six pieces stay queued for a preview.
    pub fn next_tetrad(&mut self) -> (t: Tetrad)
        requires
            old(self).wf(),
        ensures
            draws(*old(self), *final(self), t),
    {
        if self.tetrads.len() <= 6 {
            let bag = Queue::new_shuffled_seven();
            self.refill(bag);
            let ghost filled = self.upcoming();
            let t = self.take();
            proof {
                assert(seq![t.shape] + self.upcoming() =~= filled);
                assert(is_bag(bag@) && seq![t.shape] + self.upcoming() == old(self).upcoming()
                    + bag@);
            }
            t
        } else {
            let ghost filled = self.upcoming();
            let t = self.take();
            proof {
                assert(seq![t.shape] + self.upcoming() =~= filled);
            }
            t
        }
    }

    /// How many pieces are queued.
    pub fn len(&self) -> (n: usize)
        ensures
            n == self.upcoming().len(),
    {
        self.tetrads.len()
    }

    /// The shape of the piece that will be drawn `ahead` draws after the next.
    pub fn peek(&self, ahead: usize) -> (shape: Option<Shape>)
        ensures
            shape == if ahead < self.upcoming().len() {
                Some(self.upcoming()[ahead as int])
            } else {
                None::<Shape>
            },
    {
        if ahead < self.tetrads.len() {
            Some(self.tetrads[self.tetrads.len() - 1 - ahead].shape)
        } else {
            None
        }
    }

    /// Among the draws made from a queue, any fourteen in a row that start
    /// at a bag boundary hold each of the seven shapes exactly twice.
    pub proof fn lemma_draws_pair_up(self, j: int, shape: Shape)
        requires
            self.wf(),
            0 <= j,
            7 * j + 14 <= self.served().len(),
        ensures
            self.served().subrange(7 * j, 7 * j + 14).to_multiset().count(shape) == 2,
    {
        let all = self.served() + self.upcoming();
        assert(self.served().subrange(7 * j, 7 * j + 14) =~= all.subrange(7 * j, 7 * j + 14));
        lemma_pair_of_bags(all, j, shape);
    }

    /// Among the draws made from a queue, any thirteen in a row that lie
    /// within two bags in a row hold no shape three times.
    pub proof fn lemma_draws_no_triple(self, j: int, start: int, shape: Shape)
        requires
            self.wf(),
            0 <= j,
            7 * j <= start,
            start + 13 <= 7 * j + 14,
            7 * j + 14 <= self.served().len(),
        ensures
            self.served().subrange(start, start + 13).to_multiset().count(shape) <= 2,
    {
        let all = self.served() + self.upcoming();
        assert(self.served().subrange(start, start + 13) =~= all.subrange(start, start + 13));
        lemma_no_triple(all, j, start, shape);
    }
}

impl Default for Queue {
    /// A queue with nothing in it; the first draw fills it.
    fn default() -> (q: Queue)
        ensures
            q.wf(),
            q.served() == Seq::<Shape>::empty(),
            q.upcoming() == Seq::<Shape>::empty(),
    {
        let q = Queue { tetrads: Vec::new(), served: Ghost(Seq::empty()) };
        assert(q.served() + q.upcoming() =~= Seq::<Shape>::empty());
        assert(q.upcoming() =~= Seq::<Shape>::empty());
        q
    }
}

} // verus!
