use vstd::prelude::*;
use crate::paged_vec::{SeqShape, grown_capacity, lemma_room_for};
use crate::region::page_ceil;

verus! {

/// A sequence's backing seen slot by slot: `slots[i]` is the value that the bytes of
/// slot `i` hold, and `shape` says which slots hold elements.
pub struct SlotModel<T> {
    pub shape: SeqShape,
    pub slots: Seq<T>,
}

impl<T> SlotModel<T> {
    /// One slot for each element that the backing has room for.
    pub open spec fn wf(self) -> bool {
        &&& self.shape.valid()
        &&& self.slots.len() == self.shape.capacity()
    }

    /// The elements, in order.
    pub open spec fn contents(self) -> Seq<T> {
        self.slots.take(self.shape.len as int)
    }
}

/// A push: `v` is written into the slot that `SeqLayout::push_within_capacity` hands out.
pub open spec fn model_push<T>(m: SlotModel<T>, v: T) -> SlotModel<T> {
    SlotModel {
        shape: m.shape.with_len(m.shape.len + 1),
        slots: m.slots.update(m.shape.len as int, v),
    }
}

/// A pop: the slot that `SeqLayout::pop` hands out is read and leaves the sequence.
pub open spec fn model_pop<T>(m: SlotModel<T>) -> (SlotModel<T>, T) {
    (
        SlotModel { shape: m.shape.with_len((m.shape.len - 1) as nat), slots: m.slots },
        m.slots[m.shape.len - 1],
    )
}

/// The slots after `count` slots from `from` on have each moved one slot down.
pub open spec fn shift_down<T>(slots: Seq<T>, from: int, count: int) -> Seq<T> {
    Seq::new(
        slots.len(),
        |k: int|
            if from - 1 <= k < from - 1 + count {
                slots[k + 1]
            } else {
                slots[k]
            },
    )
}

/// A removal: slot `index` is read, then the elements after it, as many as
/// `SeqLayout::remove` counts, move one slot down.
pub open spec fn model_remove<T>(m: SlotModel<T>, index: int) -> (SlotModel<T>, T) {
    (
        SlotModel {
            shape: m.shape.with_len((m.shape.len - 1) as nat),
            slots: shift_down(m.slots, index + 1, m.shape.len - index - 1),
        },
        m.slots[index],
    )
}

/// Pushes each of `vs` in order.
pub open spec fn push_all<T>(m: SlotModel<T>, vs: Seq<T>) -> SlotModel<T>
    decreases vs.len(),
{
    if vs.len() == 0 {
        m
    } else {
        model_push(push_all(m, vs.drop_last()), vs.last())
    }
}

/// Pops `n` times: the model after, and the values in the order they came out.
pub open spec fn pop_n<T>(m: SlotModel<T>, n: nat) -> (SlotModel<T>, Seq<T>)
    decreases n,
{
    if n == 0 {
        (m, Seq::empty())
    } else {
        let (m1, v) = model_pop(m);
        let (m2, rest) = pop_n(m1, (n - 1) as nat);
        (m2, seq![v] + rest)
    }
}

proof fn lemma_push_all<T>(m: SlotModel<T>, vs: Seq<T>)
    requires
        m.wf(),
        m.shape.len + vs.len() <= m.shape.capacity(),
    ensures
        push_all(m, vs).wf(),
        push_all(m, vs).contents() == m.contents() + vs,
        push_all(m, vs).shape == m.shape.with_len(m.shape.len + vs.len()),
    decreases vs.len(),
{
    if vs.len() > 0 {
        lemma_push_all(m, vs.drop_last());
        let p = push_all(m, vs.drop_last());
        let q = model_push(p, vs.last());
        assert(q.contents() =~= p.contents().push(vs.last()));
        assert(vs =~= vs.drop_last().push(vs.last()));
        assert(q.contents() =~= m.contents() + vs);
    } else {
        assert(m.contents() + vs =~= m.contents());
    }
}

proof fn lemma_pop_n<T>(m: SlotModel<T>, n: nat)
    requires
        m.wf(),
        n <= m.shape.len,
    ensures
        pop_n(m, n).0.wf(),
        pop_n(m, n).0.shape == m.shape.with_len((m.shape.len - n) as nat),
        pop_n(m, n).0.slots == m.slots,
        pop_n(m, n).1 == m.contents().subrange(m.shape.len - n, m.shape.len as int).reverse(),
    decreases n,
{
    if n > 0 {
        let (m1, v) = model_pop(m);
        lemma_pop_n(m1, (n - 1) as nat);
        let c = m.contents();
        let l = m.shape.len as int;
        let rest = pop_n(m1, (n - 1) as nat).1;
        assert(m1.contents().subrange(l - n, l - 1) =~= c.subrange(l - n, l - 1));
        assert(seq![v] + rest =~= c.subrange(l - n, l).reverse());
    } else {
        assert(m.contents().subrange(m.shape.len as int, m.shape.len as int).reverse()
            =~= Seq::<T>::empty());
    }
}

/// Values pushed into a sequence and popped again come out last first, and the
/// sequence is left with the elements and the capacity it had.
pub proof fn lemma_push_pop_lifo<T>(m: SlotModel<T>, vs: Seq<T>)
    requires
        m.wf(),
        m.shape.len + vs.len() <= m.shape.capacity(),
    ensures
        push_all(m, vs).contents() == m.contents() + vs,
        pop_n(push_all(m, vs), vs.len()).1 == vs.reverse(),
        pop_n(push_all(m, vs), vs.len()).0.contents() == m.contents(),
        pop_n(push_all(m, vs), vs.len()).0.shape == m.shape,
{
    lemma_push_all(m, vs);
    let p = push_all(m, vs);
    lemma_pop_n(p, vs.len());
    let l = p.shape.len as int;
    assert(p.contents().subrange(l - vs.len(), l) =~= vs);
    assert(pop_n(p, vs.len()).0.contents() =~= m.contents());
}

/// Removing the element at `index` hands out that element and leaves the others in
/// order, one fewer, in the same backing.
pub proof fn lemma_remove_shift<T>(m: SlotModel<T>, index: int)
    requires
        m.wf(),
        0 <= index < m.shape.len,
    ensures
        model_remove(m, index).1 == m.contents()[index],
        model_remove(m, index).0.contents() == m.contents().remove(index),
        model_remove(m, index).0.wf(),
        model_remove(m, index).0.shape.capacity() == m.shape.capacity(),
{
    assert(model_remove(m, index).0.contents() =~= m.contents().remove(index));
}

/// The backing after a resize to `bytes` bytes: the region keeps the bytes that both
/// lengths hold, so the slots that both capacities hold keep their values.
pub open spec fn regrown<T>(m: SlotModel<T>, bytes: nat, slots: Seq<T>) -> bool {
    &&& slots.len() == m.shape.with_bytes(bytes).capacity()
    &&& forall|k: int|
        0 <= k < m.shape.capacity() && 0 <= k < slots.len() ==> #[trigger] slots[k] == m.slots[k]
}

/// A growth that `SeqLayout::reserve` plans keeps every element at its index and makes
/// room for the elements asked for.
pub proof fn lemma_growth_preserves_prefix<T>(m: SlotModel<T>, additional: nat, slots: Seq<T>)
    requires
        m.wf(),
        m.shape.len + additional > m.shape.capacity(),
        page_ceil(grown_capacity(m.shape, additional as int) * m.shape.elem_size) <= usize::MAX,
        regrown(
            m,
            page_ceil(grown_capacity(m.shape, additional as int) * m.shape.elem_size) as nat,
            slots,
        ),
    ensures
        ({
            let g = SlotModel {
                shape: m.shape.with_bytes(
                    page_ceil(grown_capacity(m.shape, additional as int) * m.shape.elem_size) as nat,
                ),
                slots,
            };
            &&& g.wf()
            &&& g.contents() == m.contents()
            &&& g.shape.len + additional <= g.shape.capacity()
        }),
{
    let c = grown_capacity(m.shape, additional as int);
    let b = page_ceil(c * m.shape.elem_size);
    lemma_room_for(c, m.shape.elem_size as int);
    crate::region::lemma_page_ceil(c * m.shape.elem_size);
    assert(c * m.shape.elem_size >= c) by (nonlinear_arith)
        requires
            m.shape.elem_size >= 1,
            c >= 0,
    ;
    let g = SlotModel { shape: m.shape.with_bytes(b as nat), slots };
    assert(g.contents() =~= m.contents());
}

} // verus!
