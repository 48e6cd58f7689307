use vstd::prelude::*;

verus! {

/// The gradients that a batching trainer has collected: a ring of `size`
/// slots, written one per call, and the slot that the next call writes.
/// When the last slot is written the batch is complete and the position
/// returns to the first slot.
pub struct GradientBatch<G> {
    batch_num: usize,
    batch_size: usize,
    grads: Vec<G>,
}

/// One recorded gradient `g` on the state (`pos`, `grads`) of a batch of
/// `size` slots: the next position, the slots, and whether the batch is now
/// complete. Slots not yet filled are appended; filled ones are overwritten.
pub open spec fn record_step<G>(pos: nat, size: nat, grads: Seq<G>, g: G) -> (nat, Seq<G>, bool) {
    let next = if grads.len() == pos {
        grads.push(g)
    } else {
        grads.update(pos as int, g)
    };
    if pos + 1 >= size {
        (0, next, true)
    } else {
        ((pos + 1) as nat, next, false)
    }
}

/// Records every gradient of `gs` in turn, from the state (`pos`, `grads`):
/// the final position, the final slots, and what each call answered.
pub open spec fn record_all<G>(pos: nat, size: nat, grads: Seq<G>, gs: Seq<G>) -> (
    nat,
    Seq<G>,
    Seq<bool>,
)
    decreases gs.len(),
{
    if gs.len() == 0 {
        (pos, grads, Seq::empty())
    } else {
        let (next_pos, g1, full) = record_step(pos, size, grads, gs[0]);
        let (last_pos, g2, answers) = record_all(next_pos, size, g1, gs.drop_first());
        (last_pos, g2, seq![full] + answers)
    }
}

impl<G> GradientBatch<G> {
    pub closed spec fn position(&self) -> nat {
        self.batch_num as nat
    }

    pub closed spec fn size(&self) -> nat {
        self.batch_size as nat
    }

    pub closed spec fn gradients(&self) -> Seq<G> {
        self.grads@
    }

    pub closed spec fn wf(&self) -> bool {
        &&& 0 < self.batch_size
        &&& self.batch_num < self.batch_size
        &&& self.batch_num <= self.grads.len() <= self.batch_size
    }

    /// What well-formedness says of the position and the slots.
    pub proof fn lemma_wf(&self)
        requires
            self.wf(),
        ensures
            0 < self.size(),
            self.position() < self.size(),
            self.position() <= self.gradients().len() <= self.size(),
    {
    }

    /// An empty batch of `batch_size` slots.
    pub fn new(batch_size: usize) -> (b: Self)
        requires
            batch_size > 0,
        ensures
            b.wf(),
            b.size() == batch_size,
            b.position() == 0,
            b.gradients() == Seq::<G>::empty(),
    {
        GradientBatch { batch_num: 0, batch_size, grads: Vec::new() }
    }

    pub fn batch_size(&self) -> (n: usize)
        ensures
            n == self.size(),
    {
        self.batch_size
    }

    /// The gradients held, in the order of their slots.
    pub fn gradients_vec(&self) -> (v: &Vec<G>)
        ensures
            v@ == self.gradients(),
    {
        &self.grads
    }

    /// Stores `g` in the current slot and moves to the next; returns whether
    /// that completed the batch, in which case every slot holds a gradient of
    /// the batch just completed.
    pub fn record(&mut self, g: G) -> (full: bool)
        requires
            old(self).wf(),
        ensures
            final(self).wf(),
            final(self).size() == old(self).size(),
            (final(self).position(), final(self).gradients(), full) == record_step(
                old(self).position(),
                old(self).size(),
                old(self).gradients(),
                g,
            ),
            full ==> final(self).gradients().len() == final(self).size(),
    {
        if self.grads.len() == self.batch_num {
            self.grads.push(g);
        } else {
            self.grads.set(self.batch_num, g);
        }
        self.batch_num += 1;
        if self.batch_num >= self.batch_size {
            self.batch_num = 0;
            true
        } else {
            false
        }
    }
}

/// From position `pos`, with the first `pos` slots holding the start of a
/// batch, recording the rest of the batch defers on every call but the last,
/// completes on the last, and leaves exactly the batch in the slots.
proof fn lemma_finish_batch<G>(pos: nat, size: nat, grads: Seq<G>, rest: Seq<G>)
    requires
        pos < size,
        pos <= grads.len() <= size,
        rest.len() == size - pos,
    ensures
        ({
            let (p, slots, answers) = record_all(pos, size, grads, rest);
            &&& p == 0
            &&& slots == grads.take(pos as int) + rest
            &&& answers.len() == rest.len()
            &&& forall|i: int| 0 <= i < answers.len() ==> answers[i] == (i == rest.len() - 1)
        }),
    decreases rest.len(),
{
    let (next_pos, g1, full) = record_step(pos, size, grads, rest[0]);
    assert(g1.take(pos + 1 as int) =~= grads.take(pos as int).push(rest[0]));
    if pos + 1 >= size {
        assert(rest.drop_first().len() == 0);
        assert(record_all(next_pos, size, g1, rest.drop_first()) == (next_pos, g1, Seq::<bool>::empty()));
        assert(g1 =~= grads.take(pos as int) + rest);
        assert(seq![full] + Seq::<bool>::empty() =~= seq![true]);
    } else {
        lemma_finish_batch(next_pos, size, g1, rest.drop_first());
        assert(g1.take(next_pos as int) + rest.drop_first() =~= grads.take(pos as int) + rest);
        let (last_pos, g2, answers) = record_all(next_pos, size, g1, rest.drop_first());
        assert(record_all(pos, size, grads, rest) == (last_pos, g2, seq![full] + answers));
        assert forall|i: int| 0 <= i < rest.len() implies (seq![full] + answers)[i] == (i
            == rest.len() - 1) by {
            if i > 0 {
                assert((seq![full] + answers)[i] == answers[i - 1]);
            }
        }
    }
}

/// A batch of `size` slots, started afresh, answers "deferred" to the first
/// `size - 1` gradients and "complete" to the `size`-th, and then holds
/// exactly those `size` gradients, in order.
pub proof fn lemma_batch_schedule<G>(size: nat, gs: Seq<G>)
    requires
        size > 0,
        gs.len() == size,
    ensures
        ({
            let (p, slots, answers) = record_all(0, size, Seq::<G>::empty(), gs);
            &&& p == 0
            &&& slots == gs
            &&& answers.len() == size
            &&& forall|i: int| 0 <= i < size ==> answers[i] == (i == size - 1)
        }),
{
    lemma_finish_batch(0, size, Seq::<G>::empty(), gs);
    assert(Seq::<G>::empty().take(0) + gs =~= gs);
}

} // verus!
