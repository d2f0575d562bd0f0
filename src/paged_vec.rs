use vstd::prelude::*;
use crate::region::{PAGE_SIZE, RegionError, page_ceil, lemma_page_ceil, next_page_boundary};

verus! {

/// The bookkeeping of a growable sequence whose elements lie in one page region, one
/// slot of `elem_size` bytes after another: how many slots hold elements and how many
/// bytes back them.
pub struct SeqLayout {
    len: usize,
    bytes: usize,
    elem_size: usize,
}

/// What a layout stands for.
pub struct SeqShape {
    /// How many slots, from the first, hold elements.
    pub len: nat,
    /// The byte length of the backing region.
    pub bytes: nat,
    /// The byte size of one element.
    pub elem_size: nat,
}

impl SeqShape {
    /// How many elements the backing holds.
    pub open spec fn capacity(self) -> nat {
        self.bytes / self.elem_size
    }

    /// A shape that a layout can have.
    pub open spec fn valid(self) -> bool {
        &&& self.elem_size > 0
        &&& self.bytes > 0
        &&& self.bytes % (PAGE_SIZE as nat) == 0
        &&& self.bytes <= usize::MAX
        &&& self.elem_size <= usize::MAX
        &&& self.len <= self.capacity()
    }

    /// The same backing with `len` elements.
    pub open spec fn with_len(self, len: nat) -> SeqShape {
        SeqShape { len, bytes: self.bytes, elem_size: self.elem_size }
    }

    /// The same elements in a backing of `bytes` bytes.
    pub open spec fn with_bytes(self, bytes: nat) -> SeqShape {
        SeqShape { len: self.len, bytes, elem_size: self.elem_size }
    }
}

/// The byte length of the backing that a sequence made for `capacity` elements of
/// `elem_size` bytes gets: room for them, at least one page, in whole pages.
pub open spec fn initial_bytes(capacity: int, elem_size: int) -> int {
    page_ceil(if capacity * elem_size < PAGE_SIZE {
        PAGE_SIZE as int
    } else {
        capacity * elem_size
    })
}

/// The number of elements that a growth of `s` makes room for, so that `additional`
/// more fit: the needed count, or twice the capacity where that is more.
pub open spec fn grown_capacity(s: SeqShape, additional: int) -> int {
    if s.len + additional < 2 * s.capacity() {
        2 * s.capacity() as int
    } else {
        s.len + additional
    }
}

impl View for SeqLayout {
    type V = SeqShape;

    closed spec fn view(&self) -> SeqShape {
        SeqShape { len: self.len as nat, bytes: self.bytes as nat, elem_size: self.elem_size as nat }
    }
}

/// `c` elements of `size` bytes, rounded up to whole pages, when that fits in a `usize`.
fn bytes_for(c: usize, size: usize) -> (r: Result<usize, RegionError>)
    requires
        c > 0,
        size > 0,
    ensures
        r is Ok <==> page_ceil(c * size) <= usize::MAX,
        r is Ok ==> r->Ok_0 == page_ceil(c * size),
        r is Err ==> r->Err_0 == RegionError::TooLarge,
{
    proof {
        lemma_page_ceil(c * size);
        assert(c * size >= 1) by (nonlinear_arith)
            requires
                c > 0,
                size > 0,
        ;
    }
    match c.checked_mul(size) {
        None => {
            Err(RegionError::TooLarge)
        },
        Some(n) => {
            if n > usize::MAX - (PAGE_SIZE - 1) {
                Err(RegionError::TooLarge)
            } else {
                Ok(next_page_boundary(n))
            }
        },
    }
}

/// A backing of `page_ceil(c * size)` bytes holds at least `c` elements of `size` bytes.
pub proof fn lemma_room_for(c: int, size: int)
    requires
        c >= 0,
        size > 0,
    ensures
        page_ceil(c * size) / size >= c,
{
    lemma_page_ceil(c * size);
    assert(page_ceil(c * size) / size >= c) by (nonlinear_arith)
        requires
            page_ceil(c * size) >= c * size,
            size > 0,
            c >= 0,
    ;
}

impl SeqLayout {
    #[verifier::type_invariant]
    spec fn inv(self) -> bool {
        self@.valid()
    }

    /// A sequence with no elements and room for at least `capacity` elements of
    /// `elem_size` bytes.
    pub fn new(capacity: usize, elem_size: usize) -> (r: Result<SeqLayout, RegionError>)
        requires
            elem_size > 0,
        ensures
            r is Ok <==> initial_bytes(capacity as int, elem_size as int) <= usize::MAX,
            r is Err ==> r->Err_0 == RegionError::TooLarge,
            r matches Ok(l) ==> l@ == (SeqShape {
                len: 0,
                bytes: initial_bytes(capacity as int, elem_size as int) as nat,
                elem_size: elem_size as nat,
            }),
            r matches Ok(l) ==> l@.capacity() >= capacity,
    {
        proof {
            lemma_page_ceil(PAGE_SIZE as int);
            lemma_page_ceil(capacity * elem_size);
            lemma_room_for(capacity as int, elem_size as int);
        }
        if capacity == 0 {
            assert(capacity * elem_size == 0) by (nonlinear_arith)
                requires
                    capacity == 0,
            ;
            return Ok(SeqLayout { len: 0, bytes: PAGE_SIZE, elem_size });
        }
        match bytes_for(capacity, elem_size) {
            Err(e) => Err(e),
            Ok(b) => {
                let bytes = if b < PAGE_SIZE {
                    PAGE_SIZE
                } else {
                    b
                };
                proof {
                    assert(b < PAGE_SIZE ==> capacity * elem_size < PAGE_SIZE);
                    assert(capacity * elem_size < PAGE_SIZE ==> b == PAGE_SIZE);
                    assert(bytes / elem_size >= capacity) by (nonlinear_arith)
                        requires
                            bytes >= b,
                            b / elem_size >= capacity,
                            elem_size > 0,
                    ;
                }
                Ok(SeqLayout { len: 0, bytes, elem_size })
            },
        }
    }

    /// How many slots hold elements.
    pub fn len(&self) -> (r: usize)
        ensures
            r == self@.len,
            self@.valid(),
    {
        proof {
            use_type_invariant(self);
        }
        self.len
    }

    /// The byte length of the backing region.
    pub fn bytes(&self) -> (r: usize)
        ensures
            r == self@.bytes,
            self@.valid(),
    {
        proof {
            use_type_invariant(self);
        }
        self.bytes
    }

    /// The byte size of one element.
    pub fn elem_size(&self) -> (r: usize)
        ensures
            r == self@.elem_size,
            self@.valid(),
    {
        proof {
            use_type_invariant(self);
        }
        self.elem_size
    }

    /// How many elements the backing holds.
    pub fn capacity(&self) -> (r: usize)
        ensures
            r == self@.capacity(),
            self@.valid(),
    {
        proof {
            use_type_invariant(self);
        }
        self.bytes / self.elem_size
    }

    /// Takes the next slot for an element if the backing has room: the slot's index,
    /// which is the old length. Where it has none, nothing changes.
    pub fn push_within_capacity(&mut self) -> (r: Option<usize>)
        ensures
            old(self)@.len < old(self)@.capacity() ==> r == Some(old(self)@.len as usize)
                && final(self)@ == old(self)@.with_len(old(self)@.len + 1),
            old(self)@.len >= old(self)@.capacity() ==> r is None && final(self)@ == old(self)@,
    {
        proof {
            use_type_invariant(&*self);
        }
        if self.len < self.bytes / self.elem_size {
            let slot = self.len;
            self.len = self.len + 1;
            Some(slot)
        } else {
            None
        }
    }

    /// Gives back the last element's slot, or none where there is no element.
    pub fn pop(&mut self) -> (r: Option<usize>)
        ensures
            old(self)@.len > 0 ==> r == Some((old(self)@.len - 1) as usize) && final(self)@
                == old(self)@.with_len((old(self)@.len - 1) as nat),
            old(self)@.len == 0 ==> r is None && final(self)@ == old(self)@,
    {
        proof {
            use_type_invariant(&*self);
        }
        if self.len == 0 {
            None
        } else {
            self.len = self.len - 1;
            Some(self.len)
        }
    }

    /// Takes out the element at `index`: the number of elements after it, which move
    /// one slot down.
    pub fn remove(&mut self, index: usize) -> (r: usize)
        requires
            index < old(self)@.len,
        ensures
            r == old(self)@.len - index - 1,
            final(self)@ == old(self)@.with_len((old(self)@.len - 1) as nat),
    {
        proof {
            use_type_invariant(&*self);
        }
        let after = self.len - index - 1;
        self.len = self.len - 1;
        after
    }

    /// Forgets every element: the number of elements, which the caller drops in slot
    /// order. The backing stays as it is.
    pub fn clear(&mut self) -> (r: usize)
        ensures
            r == old(self)@.len,
            final(self)@ == old(self)@.with_len(0),
            final(self)@.capacity() == old(self)@.capacity(),
    {
        proof {
            use_type_invariant(&*self);
        }
        let n = self.len;
        self.len = 0;
        n
    }

    /// The byte length to grow the backing to so that `additional` more elements fit,
    /// with room for twice the capacity where that is more; none where they fit already.
    pub fn reserve(&self, additional: usize) -> (r: Result<Option<usize>, RegionError>)
        ensures
            self@.len + additional <= self@.capacity() ==> r == Ok::<Option<usize>, RegionError>(
                None,
            ),
            self@.len + additional > self@.capacity() ==> (r is Ok <==> page_ceil(
                grown_capacity(self@, additional as int) * self@.elem_size,
            ) <= usize::MAX),
            self@.len + additional > self@.capacity() && r is Ok ==> r == Ok::<
                Option<usize>,
                RegionError,
            >(Some(page_ceil(grown_capacity(self@, additional as int) * self@.elem_size) as usize)),
            r matches Ok(Some(b)) ==> b > 0 && b % PAGE_SIZE == 0 && b as nat / self@.elem_size
                >= self@.len + additional && b as nat / self@.elem_size >= 2 * self@.capacity(),
            r is Err ==> r->Err_0 == RegionError::TooLarge,
    {
        proof {
            use_type_invariant(self);
            let g = grown_capacity(self@, additional as int);
            lemma_page_ceil(g * self@.elem_size);
            lemma_room_for(g, self@.elem_size as int);
            assert(g * self@.elem_size >= g) by (nonlinear_arith)
                requires
                    self@.elem_size >= 1,
                    g >= 0,
            ;
        }
        let cap = self.bytes / self.elem_size;
        if additional <= cap - self.len {
            return Ok(None);
        }
        if additional > usize::MAX - self.len || cap > usize::MAX / 2 {
            return Err(RegionError::TooLarge);
        }
        let needed = self.len + additional;
        let target = if needed < 2 * cap {
            2 * cap
        } else {
            needed
        };
        match bytes_for(target, self.elem_size) {
            Ok(b) => Ok(Some(b)),
            Err(e) => Err(e),
        }
    }

    /// The byte length to grow the backing to so that exactly `additional` more
    /// elements fit, in whole pages; none where they fit already.
    pub fn reserve_exact(&self, additional: usize) -> (r: Result<Option<usize>, RegionError>)
        ensures
            self@.len + additional <= self@.capacity() ==> r == Ok::<Option<usize>, RegionError>(
                None,
            ),
            self@.len + additional > self@.capacity() ==> (r is Ok <==> page_ceil(
                (self@.len + additional) * self@.elem_size,
            ) <= usize::MAX),
            self@.len + additional > self@.capacity() && r is Ok ==> r == Ok::<
                Option<usize>,
                RegionError,
            >(Some(page_ceil((self@.len + additional) * self@.elem_size) as usize)),
            r matches Ok(Some(b)) ==> b > 0 && b % PAGE_SIZE == 0 && b as nat / self@.elem_size
                >= self@.len + additional,
            r is Err ==> r->Err_0 == RegionError::TooLarge,
    {
        proof {
            use_type_invariant(self);
            let n = self@.len + additional;
            lemma_page_ceil(n * self@.elem_size);
            lemma_room_for(n, self@.elem_size as int);
            assert(n * self@.elem_size >= n) by (nonlinear_arith)
                requires
                    self@.elem_size >= 1,
                    n >= 0,
            ;
        }
        let cap = self.bytes / self.elem_size;
        if additional <= cap - self.len {
            return Ok(None);
        }
        if additional > usize::MAX - self.len {
            return Err(RegionError::TooLarge);
        }
        match bytes_for(self.len + additional, self.elem_size) {
            Ok(b) => Ok(Some(b)),
            Err(e) => Err(e),
        }
    }

    /// Before a hint that `used` elements are needed soon: the byte length to resize
    /// the backing to so that it holds `used` elements, where `used` is more than the
    /// length, and the number of bytes the hint covers.
    pub fn advise_use_soon(&self, used: usize) -> (r: Result<(Option<usize>, usize), RegionError>)
        ensures
            r is Ok <==> (used <= self@.len || page_ceil(used * self@.elem_size) <= usize::MAX),
            r is Err ==> r->Err_0 == RegionError::TooLarge,
            r matches Ok((resize, hint)) ==> {
                &&& used > self@.len ==> resize == Some(page_ceil(used * self@.elem_size) as usize)
                &&& used <= self@.len ==> resize is None
                &&& hint == (if used <= self@.len {
                    used * self@.elem_size
                } else {
                    page_ceil(used * self@.elem_size)
                })
            },
    {
        proof {
            use_type_invariant(self);
        }
        if used <= self.len {
            proof {
                assert(used * self@.elem_size <= self@.len * self@.elem_size) by (nonlinear_arith)
                    requires
                        used <= self@.len,
                        self@.elem_size >= 0,
                ;
                assert(self@.len * self@.elem_size <= self@.bytes) by (nonlinear_arith)
                    requires
                        self@.len <= self@.bytes / self@.elem_size,
                        self@.elem_size > 0,
                ;
            }
            Ok((None, used * self.elem_size))
        } else {
            match bytes_for(used, self.elem_size) {
                Ok(b) => Ok((Some(b), b)),
                Err(e) => Err(e),
            }
        }
    }

    /// Records that the backing region now holds `bytes` bytes; the elements stay.
    pub fn set_backing(&mut self, bytes: usize)
        requires
            bytes > 0,
            bytes % PAGE_SIZE == 0,
            bytes as nat / old(self)@.elem_size >= old(self)@.len,
        ensures
            final(self)@ == old(self)@.with_bytes(bytes as nat),
    {
        proof {
            use_type_invariant(&*self);
        }
        self.bytes = bytes;
    }
}

} // verus!
