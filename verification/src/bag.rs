//! Seven-bag randomizer and next queue.
use vstd::prelude::*;

use crate::piece::Tetromino;
use crate::rng::{Rng, bounded_value, seed_state, xorshift};

verus! {

broadcast use vstd::array::group_array_axioms;

/// Number of next pieces that are always visible.
pub const NEXT_COUNT: usize = 5;

/// Capacity of the ring buffer: the longest queue before a refill (5) plus
/// one bag (7) fits in two bags' worth.
const QUEUE_CAP: usize = 14;

/// Queue length guaranteed after a refill (active piece plus five next).
const QUEUE_MIN: usize = 6;

/// The bag before shuffling: I, O, T, S, Z, J, L.
pub open spec fn bag_order() -> Seq<Tetromino> {
    seq![Tetromino::I, Tetromino::O, Tetromino::T, Tetromino::S, Tetromino::Z, Tetromino::J, Tetromino::L]
}

/// Fisher-Yates from index `i` down to 1: `j = rand_bounded(i + 1)`, swap
/// `bag[i]` and `bag[j]`. Returns the shuffled bag and the final random state.
pub open spec fn shuffle_from(bag: Seq<Tetromino>, state: u32, i: int) -> (Seq<Tetromino>, u32)
    decreases i,
{
    if i < 1 {
        (bag, state)
    } else {
        let next = xorshift(state);
        let j = bounded_value(next, (i + 1) as u32);
        shuffle_from(bag.update(i, bag[j]).update(j, bag[i]), next, i - 1)
    }
}

/// One freshly shuffled bag drawn with random state `state`, and the state
/// after drawing it.
pub open spec fn shuffled_bag(state: u32) -> (Seq<Tetromino>, u32) {
    shuffle_from(bag_order(), state, 6)
}

/// The queue after topping it up: while it is shorter than six, one more
/// shuffled bag is appended.
pub open spec fn refilled(queue: Seq<Tetromino>, state: u32) -> (Seq<Tetromino>, u32) {
    if queue.len() < 6 {
        (queue + shuffled_bag(state).0, shuffled_bag(state).1)
    } else {
        (queue, state)
    }
}

/// Seven pieces, each kind exactly once.
pub open spec fn is_full_bag(bag: Seq<Tetromino>) -> bool {
    &&& bag.len() == 7
    &&& forall|k: Tetromino| #[trigger] bag.contains(k)
    &&& forall|i: int, j: int| 0 <= i < j < 7 ==> bag[i] != bag[j]
}

/// Swapping two entries keeps a bag a full bag.
proof fn lemma_swap_keeps_full_bag(bag: Seq<Tetromino>, i: int, j: int)
    requires
        is_full_bag(bag),
        0 <= i < 7,
        0 <= j < 7,
    ensures
        is_full_bag(bag.update(i, bag[j]).update(j, bag[i])),
{
    let b2 = bag.update(i, bag[j]).update(j, bag[i]);
    assert forall|k: Tetromino| #[trigger] b2.contains(k) by {
        assert(bag.contains(k));
        let m = choose|m: int| 0 <= m < bag.len() && bag[m] == k;
        if m == i {
            assert(b2[j] == k);
        } else if m == j {
            assert(b2[i] == k);
        } else {
            assert(b2[m] == k);
        }
    }
}

/// Every bag the randomizer deals holds each of the seven kinds exactly once.
pub proof fn lemma_shuffle_is_full_bag(bag: Seq<Tetromino>, state: u32, i: int)
    requires
        is_full_bag(bag),
        i <= 6,
    ensures
        is_full_bag(shuffle_from(bag, state, i).0),
    decreases i,
{
    if i >= 1 {
        let next = xorshift(state);
        let j = bounded_value(next, (i + 1) as u32);
        assert(0 <= j < i + 1) by (nonlinear_arith)
            requires
                j == ((next as int / 65536) * (i + 1)) / 65536,
                0 <= next as int / 65536 < 65536,
                1 <= i <= 6,
        ;
        lemma_swap_keeps_full_bag(bag, i, j);
        lemma_shuffle_is_full_bag(bag.update(i, bag[j]).update(j, bag[i]), next, i - 1);
    }
}

/// The unshuffled bag holds each kind once.
pub proof fn lemma_bag_order_is_full_bag()
    ensures
        is_full_bag(bag_order()),
{
    let b = bag_order();
    assert forall|k: Tetromino| #[trigger] b.contains(k) by {
        match k {
            Tetromino::I => assert(b[0] == k),
            Tetromino::O => assert(b[1] == k),
            Tetromino::T => assert(b[2] == k),
            Tetromino::S => assert(b[3] == k),
            Tetromino::Z => assert(b[4] == k),
            Tetromino::J => assert(b[5] == k),
            Tetromino::L => assert(b[6] == k),
        }
    }
}

/// Every dealt bag contains each of the seven kinds exactly once.
pub proof fn lemma_dealt_bag_is_full_bag(state: u32)
    ensures
        is_full_bag(shuffled_bag(state).0),
{
    lemma_bag_order_is_full_bag();
    lemma_shuffle_is_full_bag(bag_order(), state, 6);
}

/// Three pieces in a row never have the same kind where two dealt bags
/// meet, nor inside one bag.
pub proof fn lemma_no_three_in_a_row(first: Seq<Tetromino>, second: Seq<Tetromino>, i: int)
    requires
        is_full_bag(first),
        is_full_bag(second),
        0 <= i < 12,
    ensures
        !((first + second)[i] == (first + second)[i + 1] && (first + second)[i + 1] == (first + second)[i + 2]),
{
    let s = first + second;
    if i < 6 {
        assert(s[i] == first[i] && s[i + 1] == first[i + 1]);
    } else {
        assert(s[i + 1] == second[i - 6] && s[i + 2] == second[i - 5]);
    }
}

/// Topping up the queue only appends: the queued pieces keep their order,
/// and at least six are queued afterwards.
pub proof fn lemma_refill_keeps_order(queue: Seq<Tetromino>, state: u32)
    ensures
        refilled(queue, state).0.len() >= 6,
        refilled(queue, state).0.len() >= queue.len(),
        refilled(queue, state).0.subrange(0, queue.len() as int) == queue,
{
    if queue.len() < 6 {
        lemma_dealt_bag_is_full_bag(state);
    }
    assert(refilled(queue, state).0.subrange(0, queue.len() as int) =~= queue);
}


/// The first `k` bags dealt from random state `state`, one after another.
pub open spec fn deal(state: u32, k: nat) -> Seq<Tetromino>
    decreases k,
{
    if k == 0 {
        Seq::empty()
    } else {
        deal(state, (k - 1) as nat) + shuffled_bag(deal_state(state, (k - 1) as nat)).0
    }
}

/// The random state after dealing `k` bags from `state`.
pub open spec fn deal_state(state: u32, k: nat) -> u32
    decreases k,
{
    if k == 0 {
        state
    } else {
        shuffled_bag(deal_state(state, (k - 1) as nat)).1
    }
}

/// The queue and random state of a queue created from `seed` after `n`
/// pops (as `PieceQueue::new` and `PieceQueue::pop` state them).
pub open spec fn pops(seed: u32, n: nat) -> (Seq<Tetromino>, u32)
    decreases n,
{
    if n == 0 {
        shuffled_bag(seed_state(seed))
    } else {
        let before = pops(seed, (n - 1) as nat);
        refilled(before.0.drop_first(), before.1)
    }
}

/// The piece the `n+1`-th pop of a queue created from `seed` returns.
pub open spec fn popped(seed: u32, n: nat) -> Tetromino {
    pops(seed, n).0[0]
}

/// The number of bags dealt into a queue created from `seed` after `n` pops.
pub open spec fn bags_dealt(seed: u32, n: nat) -> nat
    decreases n,
{
    if n == 0 {
        1
    } else if pops(seed, (n - 1) as nat).0.len() - 1 < 6 {
        bags_dealt(seed, (n - 1) as nat) + 1
    } else {
        bags_dealt(seed, (n - 1) as nat)
    }
}

/// Dealing `k` bags gives `7k` pieces, and dealing more only appends.
pub proof fn lemma_deal_prefix(state: u32, k1: nat, k2: nat)
    requires
        k1 <= k2,
    ensures
        deal(state, k2).len() == 7 * k2,
        deal(state, k2).subrange(0, 7 * k1 as int) == deal(state, k1),
    decreases k2,
{
    lemma_dealt_bag_is_full_bag(deal_state(state, (k2 - 1) as nat));
    if k2 > 0 {
        if k1 == k2 {
            lemma_deal_prefix(state, (k2 - 1) as nat, (k2 - 1) as nat);
            assert(deal(state, k2).subrange(0, 7 * k1 as int) =~= deal(state, k1));
        } else {
            lemma_deal_prefix(state, k1, (k2 - 1) as nat);
            let prev = deal(state, (k2 - 1) as nat);
            assert(deal(state, k2).subrange(0, 7 * k1 as int) =~= prev.subrange(0, 7 * k1 as int));
        }
    } else {
        assert(deal(state, k2).subrange(0, 7 * k1 as int) =~= deal(state, k1));
    }
}

/// Each group of seven dealt pieces is one bag: every kind once.
pub proof fn lemma_deal_windows(state: u32, k: nat, j: nat)
    requires
        j < k,
    ensures
        deal(state, k).len() == 7 * k,
        is_full_bag(deal(state, k).subrange(7 * j as int, 7 * j as int + 7)),
{
    lemma_deal_prefix(state, j + 1, k);
    lemma_deal_prefix(state, j, j);
    lemma_dealt_bag_is_full_bag(deal_state(state, j));
    assert(deal(state, k).subrange(7 * j as int, 7 * j as int + 7) =~= deal(state, j + 1).subrange(7 * j as int, 7 * j as int + 7));
    assert(deal(state, j + 1).subrange(7 * j as int, 7 * j as int + 7) =~= shuffled_bag(deal_state(state, j)).0);
}

/// After `n` pops the queue is what follows the first `n` dealt pieces, and
/// its random state is the one after the bags dealt so far.
pub proof fn lemma_pops_follow_deal(seed: u32, n: nat)
    ensures
        ({
            let k = bags_dealt(seed, n);
            let q = pops(seed, n);
            &&& k >= 1
            &&& q.0.len() >= 6
            &&& deal(seed_state(seed), k).len() == n + q.0.len()
            &&& deal(seed_state(seed), k).subrange(n as int, n + q.0.len() as int) == q.0
            &&& q.1 == deal_state(seed_state(seed), k)
        }),
    decreases n,
{
    let s0 = seed_state(seed);
    if n == 0 {
        lemma_dealt_bag_is_full_bag(s0);
        assert(deal(s0, 0) =~= Seq::<Tetromino>::empty());
        assert(deal(s0, 1) =~= shuffled_bag(s0).0);
        assert(deal(s0, 1).subrange(0, 7) =~= shuffled_bag(s0).0);
    } else {
        lemma_pops_follow_deal(seed, (n - 1) as nat);
        let k = bags_dealt(seed, (n - 1) as nat);
        let q = pops(seed, (n - 1) as nat);
        let d = deal(s0, k);
        let rest = q.0.drop_first();
        assert(d.subrange(n as int, n - 1 + q.0.len() as int) =~= rest) by {
            assert forall|i: int| 0 <= i < rest.len() implies d.subrange(n as int, n - 1 + q.0.len() as int)[i] == rest[i] by {
                assert(d.subrange(n - 1, n - 1 + q.0.len() as int)[i + 1] == q.0[i + 1]);
            }
        }
        if rest.len() < 6 {
            lemma_dealt_bag_is_full_bag(deal_state(s0, k));
            let bag = shuffled_bag(deal_state(s0, k)).0;
            let d2 = deal(s0, k + 1);
            assert(d2 == d + bag);
            assert(d2.subrange(n as int, d2.len() as int) =~= rest + bag);
        }
    }
}

/// The pieces a queue created from `seed` hands out are the bags dealt one
/// after another from `seed_state(seed)`, each shuffled with the random
/// state left by the one before: the `n`-th pop (counting from 0) is the
/// `n`-th piece of those bags.
pub proof fn lemma_popped_is_dealt(seed: u32, n: nat, k: nat)
    requires
        n < 7 * k,
    ensures
        deal(seed_state(seed), k).len() == 7 * k,
        popped(seed, n) == deal(seed_state(seed), k)[n as int],
{
    let s0 = seed_state(seed);
    lemma_pops_follow_deal(seed, n);
    let kn = bags_dealt(seed, n);
    let q = pops(seed, n);
    assert(deal(s0, kn)[n as int] == q.0[0]) by {
        assert(deal(s0, kn).subrange(n as int, n + q.0.len() as int)[0] == q.0[0]);
    }
    if kn <= k {
        lemma_deal_prefix(s0, kn, k);
        assert(deal(s0, k).subrange(0, 7 * kn as int)[n as int] == deal(s0, k)[n as int]);
    } else {
        lemma_deal_prefix(s0, k, kn);
        assert(deal(s0, kn).subrange(0, 7 * k as int)[n as int] == deal(s0, kn)[n as int]);
    }
}

/// Every run of seven pops starting at a multiple of seven is one bag:
/// each kind exactly once.
pub proof fn lemma_seven_pop_windows(seed: u32, j: nat)
    ensures
        is_full_bag(Seq::new(7, |i: int| popped(seed, 7 * j + i as nat))),
{
    let s0 = seed_state(seed);
    let big = j + 1;
    assert forall|i: int| 0 <= i < 7 implies #[trigger] popped(seed, 7 * j + i as nat) == deal(s0, big)[7 * j as int + i] by {
        lemma_popped_is_dealt(seed, (7 * j + i) as nat, big);
    }
    lemma_deal_windows(s0, big, j);
    assert(Seq::new(7, |i: int| popped(seed, 7 * j + i as nat)) =~= deal(s0, big).subrange(7 * j as int, 7 * j as int + 7));
}

/// Position in the ring buffer of the `k`-th queued piece.
spec fn slot(head: int, k: int) -> int {
    (head + k) % 14
}

proof fn lemma_slot(head: int, k: int)
    requires
        0 <= head < 14,
        0 <= k < 14,
    ensures
        slot(head, k) == if head + k < 14 {
            head + k
        } else {
            head + k - 14
        },
{
}

/// Seven-bag randomizer plus next queue, kept in a fixed ring buffer. After
/// every `pop` at least five next pieces remain visible.
#[derive(Debug, Clone, Copy)]
pub struct PieceQueue {
    rng: Rng,
    buf: [Tetromino; 14],
    head: usize,
    len: usize,
}

impl View for PieceQueue {
    type V = Seq<Tetromino>;

    /// The queued pieces, next one first.
    closed spec fn view(&self) -> Seq<Tetromino> {
        Seq::new(self.len as nat, |k: int| self.buf@[slot(self.head as int, k)])
    }
}

impl PieceQueue {
    /// Internal consistency: the queue holds between six and twelve pieces.
    pub closed spec fn wf(self) -> bool {
        &&& self.head < 14
        &&& 6 <= self.len <= 12
    }

    /// A consistent queue holds between six and twelve pieces.
    pub proof fn lemma_wf_len(self)
        requires
            self.wf(),
        ensures
            6 <= self@.len() <= 12,
    {
    }

    /// State of the random generator that deals the next bag.
    pub closed spec fn rng_state(self) -> u32 {
        self.rng.state()
    }

    /// Creates a queue from a seed and fills it with one shuffled bag.
    pub fn new(seed: u32) -> (r: PieceQueue)
        ensures
            r.wf(),
            r@ == shuffled_bag(seed_state(seed)).0,
            r.rng_state() == shuffled_bag(seed_state(seed)).1,
            r@ == pops(seed, 0).0 && r.rng_state() == pops(seed, 0).1,
    {
        let mut queue = PieceQueue {
            rng: Rng::new(seed),
            buf: [Tetromino::I; 14],
            head: 0,
            len: 0,
        };
        assert(queue@ =~= Seq::<Tetromino>::empty());
        queue.refill();
        assert(queue@ =~= shuffled_bag(seed_state(seed)).0);
        queue
    }

    /// Takes the next piece. Afterwards at least five next pieces remain.
    pub fn pop(&mut self) -> (r: Tetromino)
        requires
            old(self).wf(),
        ensures
            final(self).wf(),
            r == old(self)@[0],
            final(self)@ == refilled(old(self)@.drop_first(), old(self).rng_state()).0,
            final(self).rng_state() == refilled(old(self)@.drop_first(), old(self).rng_state()).1,
            forall|i: int| 0 <= i < old(self)@.len() - 1 ==> #[trigger] final(self)@[i] == old(self)@[i + 1],
            forall|seed: u32, n: nat|
                old(self)@ == #[trigger] pops(seed, n).0 && old(self).rng_state() == pops(seed, n).1 ==> r == popped(
                    seed,
                    n,
                ) && final(self)@ == pops(seed, n + 1).0 && final(self).rng_state() == pops(seed, n + 1).1,
    {
        let ghost before = self@;
        proof {
            lemma_slot(self.head as int, 0);
        }
        let piece = self.buf[self.head];
        self.head = (self.head + 1) % 14;
        self.len = self.len - 1;
        proof {
            assert forall|k: int| 0 <= k < self.len implies #[trigger] self@[k] == before.drop_first()[k] by {
                lemma_slot(self.head as int, k);
                lemma_slot(old(self).head as int, k + 1);
            }
            assert(self@ =~= before.drop_first());
        }
        self.refill();
        proof {
            lemma_refill_keeps_order(before.drop_first(), old(self).rng_state());
            assert forall|i: int| 0 <= i < before.len() - 1 implies #[trigger] self@[i] == before[i + 1] by {
                assert(self@.subrange(0, before.len() - 1)[i] == self@[i]);
            }
        }
        piece
    }

    /// Looks at the `i`-th next piece (`0..NEXT_COUNT`) without taking it.
    pub fn peek(&self, i: usize) -> (r: Tetromino)
        requires
            self.wf(),
            i < 5,
        ensures
            r == self@[i as int],
    {
        proof {
            lemma_slot(self.head as int, i as int);
        }
        self.buf[(self.head + i) % 14]
    }

    /// Appends bags until the queue holds at least six pieces.
    fn refill(&mut self)
        requires
            old(self).head < 14,
            old(self).len <= 12,
        ensures
            final(self).wf(),
            final(self)@ == refilled(old(self)@, old(self).rng_state()).0,
            final(self).rng_state() == refilled(old(self)@, old(self).rng_state()).1,
    {
        while self.len < 6
            invariant
                self.head < 14,
                self.len <= 12,
                self.len < 6 ==> self@ == old(self)@ && self.rng_state() == old(self).rng_state(),
                old(self).len < 6 && self.len >= 6 ==> self@ == refilled(old(self)@, old(self).rng_state()).0
                    && self.rng_state() == refilled(old(self)@, old(self).rng_state()).1,
                old(self).len >= 6 ==> self@ == old(self)@ && self.rng_state() == old(self).rng_state(),
                self.len >= old(self).len,
            decreases 14 - self.len,
        {
            self.push_bag();
        }
    }

    /// Shuffles a fresh bag (Fisher-Yates) and appends its seven pieces.
    fn push_bag(&mut self)
        requires
            old(self).head < 14,
            old(self).len + 7 <= 14,
        ensures
            final(self).head == old(self).head,
            final(self).len == old(self).len + 7,
            final(self)@ == old(self)@ + shuffled_bag(old(self).rng_state()).0,
            final(self).rng_state() == shuffled_bag(old(self).rng_state()).1,
    {
        let ghost start_state = self.rng.state();
        let mut bag: [Tetromino; 7] = [
            Tetromino::I,
            Tetromino::O,
            Tetromino::T,
            Tetromino::S,
            Tetromino::Z,
            Tetromino::J,
            Tetromino::L,
        ];
        assert(bag@ =~= bag_order());
        let mut i: usize = 6;
        while i >= 1
            invariant
                i <= 6,
                bag@.len() == 7,
                shuffle_from(bag@, self.rng.state(), i as int) == shuffled_bag(start_state),
                self.head == old(self).head,
                self.len == old(self).len,
                self.buf == old(self).buf,
            decreases i,
        {
            let ghost prev_bag = bag@;
            let ghost prev_state = self.rng.state();
            let j = self.rng.bounded(i as u32 + 1) as usize;
            let a = bag[i];
            let b = bag[j];
            bag[i] = b;
            bag[j] = a;
            assert(bag@ =~= prev_bag.update(i as int, prev_bag[j as int]).update(j as int, prev_bag[i as int]));
            i = i - 1;
        }
        let ghost dealt = bag@;
        assert(dealt == shuffled_bag(start_state).0);
        let ghost before = self@;
        let mut k: usize = 0;
        while k < 7
            invariant
                k <= 7,
                self.head < 14,
                self.head == old(self).head,
                self.len == old(self).len + k,
                old(self).len + 7 <= 14,
                bag@ == dealt,
                self@ == before + dealt.take(k as int),
                self.rng.state() == shuffled_bag(start_state).1,
            decreases 7 - k,
        {
            let ghost prev = self@;
            proof {
                lemma_slot(self.head as int, self.len as int);
            }
            self.buf[(self.head + self.len) % 14] = bag[k];
            self.len = self.len + 1;
            proof {
                assert forall|m: int| 0 <= m < self.len implies #[trigger] self@[m] == prev.push(dealt[k as int])[m] by {
                    lemma_slot(self.head as int, m);
                }
                assert(self@ =~= prev.push(dealt[k as int]));
                assert(dealt.take(k + 1) =~= dealt.take(k as int).push(dealt[k as int]));
            }
            k = k + 1;
        }
        assert(dealt.take(7) =~= dealt);
    }
}

} // verus!
