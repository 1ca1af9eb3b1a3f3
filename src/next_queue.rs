//! The piece supply: a queue refilled with shuffled bags of the seven tetrominoes.

use crate::falling_piece::Tetromino;
use rand::rngs::StdRng;
use rand::seq::SliceRandom;
use vstd::prelude::*;

verus! {

#[verifier::external_type_specification]
#[verifier::external_body]
pub struct ExStdRng(rand::rngs::StdRng);

/// A bag: the seven tetrominoes, each exactly once, in some order.
pub open spec fn is_bag(s: Seq<Tetromino>) -> bool {
    s.to_multiset() == seq![
        Tetromino::I,
        Tetromino::O,
        Tetromino::T,
        Tetromino::S,
        Tetromino::Z,
        Tetromino::J,
        Tetromino::L,
    ].to_multiset()
}

/// No piece of the sequence is the empty square.
pub open spec fn no_empty(s: Seq<Tetromino>) -> bool {
    forall|k: int| 0 <= k < s.len() ==> #[trigger] s[k] != Tetromino::Empty
}

/// A bag holds no empty square.
pub proof fn lemma_bag_has_no_empty(s: Seq<Tetromino>)
    requires
        is_bag(s),
    ensures
        no_empty(s),
{
    let full = seq![
        Tetromino::I,
        Tetromino::O,
        Tetromino::T,
        Tetromino::S,
        Tetromino::Z,
        Tetromino::J,
        Tetromino::L,
    ];
    assert(!full.contains(Tetromino::Empty));
    vstd::seq_lib::to_multiset_contains(full, Tetromino::Empty);
    vstd::seq_lib::to_multiset_contains(s, Tetromino::Empty);
    assert forall|k: int| 0 <= k < s.len() implies #[trigger] s[k] != Tetromino::Empty by {
        if s[k] == Tetromino::Empty {
            assert(s.contains(Tetromino::Empty));
        }
    }
}

/// The `k` pieces that come next out of a queue, in the order they are drawn.
pub open spec fn upcoming(q: Seq<Tetromino>, k: int) -> Seq<Tetromino> {
    q.subrange(q.len() - k, q.len() as int).reverse()
}

/// Relies on rand's `SliceRandom::shuffle`, which permutes the slice in place by
/// swapping its elements.
#[verifier::external_body]
fn shuffle_bag(bag: &mut Vec<Tetromino>, rng: &mut StdRng)
    ensures
        final(bag)@.to_multiset() == old(bag)@.to_multiset(),
{
    bag.shuffle(rng);
}

/// Upcoming tetrominoes; the next one to be drawn is the last element.
#[derive(Clone, Debug)]
pub struct NextQueue {
    queue: Vec<Tetromino>,
}

impl View for NextQueue {
    type V = Seq<Tetromino>;

    closed spec fn view(&self) -> Seq<Tetromino> {
        self.queue@
    }
}

impl NextQueue {
    pub const NEXT_QUEUE_SIZE: usize = 5;

    pub const SIZE_OF_BAG: usize = 7;

    /// A queue that holds one shuffled bag.
    pub fn new(rng: &mut StdRng) -> (r: NextQueue)
        ensures
            is_bag(r@),
            no_empty(r@),
            r@.len() == 7,
    {
        let mut queue = NextQueue { queue: Vec::new() };
        queue.push_new_bag(rng);
        assert(queue@ =~= queue@.subrange(0, 7));
        proof {
            lemma_bag_has_no_empty(queue@);
        }
        queue
    }

    /// Puts a bag in front of what is left: its pieces come after all the others.
    pub fn push_bag(&mut self, bag: Vec<Tetromino>)
        requires
            is_bag(bag@),
            old(self)@.len() < Self::SIZE_OF_BAG,
        ensures
            final(self)@ == bag@ + old(self)@,
    {
        let mut bag = bag;
        bag.append(&mut self.queue);
        self.queue = bag;
    }

    fn push_new_bag(&mut self, rng: &mut StdRng)
        requires
            old(self)@.len() < Self::SIZE_OF_BAG,
        ensures
            final(self)@.len() == old(self)@.len() + 7,
            is_bag(final(self)@.subrange(0, 7)),
            final(self)@.subrange(7, final(self)@.len() as int) == old(self)@,
    {
        let mut new_bag = vec![
            Tetromino::I,
            Tetromino::O,
            Tetromino::T,
            Tetromino::S,
            Tetromino::Z,
            Tetromino::J,
            Tetromino::L,
        ];
        shuffle_bag(&mut new_bag, rng);
        proof {
            broadcast use vstd::seq_lib::to_multiset_len;
            assert(new_bag@.to_multiset().len() == 7);
        }
        let ghost before = self@;
        self.push_bag(new_bag);
        assert(self@.subrange(0, 7) =~= new_bag@);
        assert(self@.subrange(7, self@.len() as int) =~= before);
    }

    /// Puts a fresh shuffled bag in front when fewer than a bag's worth are left.
    pub fn push_new_bag_if_needed(&mut self, rng: &mut StdRng)
        ensures
            old(self)@.len() >= Self::SIZE_OF_BAG ==> final(self)@ == old(self)@,
            old(self)@.len() < Self::SIZE_OF_BAG ==> {
                &&& final(self)@.len() == old(self)@.len() + 7
                &&& is_bag(final(self)@.subrange(0, 7))
                &&& final(self)@.subrange(7, final(self)@.len() as int) == old(self)@
            },
    {
        if self.queue.len() < Self::SIZE_OF_BAG {
            self.push_new_bag(rng);
        }
    }

    /// Takes the next tetromino off the queue.
    pub fn get_next_tetromino(&mut self) -> (r: Tetromino)
        requires
            old(self)@.len() > 0,
        ensures
            r == old(self)@.last(),
            final(self)@ == old(self)@.drop_last(),
    {
        self.queue.pop().unwrap()
    }

    /// The tetromino that comes `index` draws after the next one.
    pub fn index(&self, index: usize) -> (r: Tetromino)
        requires
            index < self@.len(),
        ensures
            r == upcoming(self@, index + 1)[index as int],
    {
        self.queue[self.queue.len() - 1 - index]
    }

    /// Whether no entry of the queue is the empty square.
    pub fn has_no_empty(&self) -> (r: bool)
        ensures
            r == no_empty(self@),
    {
        let mut k: usize = 0;
        while k < self.queue.len()
            invariant
                k <= self.queue@.len(),
                forall|m: int| 0 <= m < k ==> #[trigger] self.queue@[m] != Tetromino::Empty,
            decreases self.queue@.len() - k,
        {
            if self.queue[k] == Tetromino::Empty {
                return false;
            }
            k = k + 1;
        }
        true
    }

    pub fn len(&self) -> (r: usize)
        ensures
            r == self@.len(),
    {
        self.queue.len()
    }
}

/// Bag fairness: once the pieces that stood in the queue before a bag was put in
/// front of them have been drawn, the next seven draws hold each tetromino exactly
/// once.
pub proof fn lemma_bag_draws_fair(bag: Seq<Tetromino>, rest: Seq<Tetromino>)
    requires
        bag.len() == 7,
        is_bag(bag),
    ensures
        is_bag(upcoming(bag + rest, rest.len() + 7int).subrange(rest.len() as int, rest.len() + 7int)),
{
    let q = bag + rest;
    let window = upcoming(q, rest.len() + 7int).subrange(rest.len() as int, rest.len() + 7int);
    assert(window =~= bag.reverse());
    bag.lemma_reverse_to_multiset();
}


/// One draw as the board makes it: refill the queue `q` when it is short of a bag
/// (`r` is the refilled queue), then take `drawn` off it, leaving `next`.
pub open spec fn draw_step(
    q: Seq<Tetromino>,
    r: Seq<Tetromino>,
    drawn: Tetromino,
    next: Seq<Tetromino>,
) -> bool {
    &&& q.len() >= 7 ==> r == q
    &&& q.len() < 7 ==> {
        &&& r.len() == q.len() + 7
        &&& is_bag(r.subrange(0, 7))
        &&& r.subrange(7, r.len() as int) == q
    }
    &&& r.len() > 0
    &&& drawn == r.last()
    &&& next == r.drop_last()
}

proof fn lemma_draw_run_prefix(
    qs: Seq<Seq<Tetromino>>,
    rs: Seq<Seq<Tetromino>>,
    ds: Seq<Tetromino>,
    k: int,
)
    requires
        qs.len() == 8,
        rs.len() == 7,
        ds.len() == 7,
        qs[0].len() == 7,
        forall|j: int| 0 <= j < 7 ==> draw_step(#[trigger] qs[j], rs[j], ds[j], qs[j + 1]),
        2 <= k <= 7,
    ensures
        qs[k].len() == 14 - k,
        is_bag(qs[k].subrange(0, 7)),
        qs[k].subrange(7, 14 - k) == qs[0].subrange(0, 7 - k),
        forall|j: int| 0 <= j < k ==> #[trigger] ds[j] == qs[0][6 - j],
    decreases k,
{
    if k == 2 {
        assert(draw_step(qs[0], rs[0], ds[0], qs[1]));
        assert(draw_step(qs[1], rs[1], ds[1], qs[2]));
        assert(qs[1] == qs[0].drop_last());
        assert(ds[1] == rs[1].subrange(7, 13).last());
        assert(qs[2].subrange(0, 7) =~= rs[1].subrange(0, 7));
        assert(qs[2].subrange(7, 12) =~= qs[0].subrange(0, 5));
    } else {
        lemma_draw_run_prefix(qs, rs, ds, k - 1);
        let q = qs[k - 1];
        assert(draw_step(q, rs[k - 1], ds[k - 1], qs[k]));
        assert(ds[k - 1] == q.subrange(7, 15 - k).last());
        assert(qs[k].subrange(0, 7) =~= q.subrange(0, 7));
        assert(qs[k].subrange(7, 14 - k) =~= qs[0].subrange(0, 7 - k));
    }
}

/// Bag fairness over a run of draws: starting from a queue that holds exactly one
/// bag, seven draws, each after a refill, give each tetromino exactly once, and
/// leave the queue holding exactly one bag again, so every later run of seven
/// draws aligned the same way is fair too.
pub proof fn lemma_seven_draws_fair(
    qs: Seq<Seq<Tetromino>>,
    rs: Seq<Seq<Tetromino>>,
    ds: Seq<Tetromino>,
)
    requires
        qs.len() == 8,
        rs.len() == 7,
        ds.len() == 7,
        qs[0].len() == 7,
        is_bag(qs[0]),
        forall|j: int| 0 <= j < 7 ==> draw_step(#[trigger] qs[j], rs[j], ds[j], qs[j + 1]),
    ensures
        is_bag(ds),
        is_bag(qs[7]),
        qs[7].len() == 7,
{
    lemma_draw_run_prefix(qs, rs, ds, 7);
    assert(ds =~= qs[0].reverse());
    qs[0].lemma_reverse_to_multiset();
    assert(qs[7] =~= qs[7].subrange(0, 7));
}

} // verus!
