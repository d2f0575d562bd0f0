use vstd::prelude::*;
use crate::perm::{Perm, WinProtect, posix_bits, win_class};

verus! {

/// The size of one page, in bytes.
pub const PAGE_SIZE: usize = 0x1000;

/// The least multiple of the page size that is at least `n`.
pub open spec fn page_ceil(n: int) -> int {
    ((n + PAGE_SIZE - 1) / PAGE_SIZE as int) * PAGE_SIZE
}

/// The greatest multiple of the page size that is at most `n`.
pub open spec fn page_floor(n: int) -> int {
    (n / PAGE_SIZE as int) * PAGE_SIZE
}

/// `page_ceil(n)` is the least page multiple that is not below `n`.
pub proof fn lemma_page_ceil(n: int)
    requires
        n >= 0,
    ensures
        page_ceil(n) % PAGE_SIZE as int == 0,
        n <= page_ceil(n) < n + PAGE_SIZE,
        n % PAGE_SIZE as int == 0 ==> page_ceil(n) == n,
{
}

/// `page_floor(n)` is the greatest page multiple that is not above `n`.
pub proof fn lemma_page_floor(n: int)
    requires
        n >= 0,
    ensures
        page_floor(n) % PAGE_SIZE as int == 0,
        n - PAGE_SIZE < page_floor(n) <= n,
        page_floor(n) == n - n % PAGE_SIZE as int,
{
}

/// Why a region could not be had.
#[derive(Clone, Copy, Debug, PartialEq, Eq, Structural)]
pub enum RegionError {
    /// A region of zero bytes was asked for.
    ZeroLength,
    /// The byte length, rounded up to whole pages, does not fit in the address space.
    TooLarge,
    /// The kernel refused the mapping.
    MapFailed,
    /// The kernel answered with a range that is not made of whole pages.
    Misaligned,
}

/// Rounds `size` up to the next page boundary.
pub fn next_page_boundary(size: usize) -> (r: usize)
    requires
        size + PAGE_SIZE - 1 <= usize::MAX,
    ensures
        r == page_ceil(size as int),
{
    ((size + (PAGE_SIZE - 1)) / PAGE_SIZE) * PAGE_SIZE
}

/// The byte length of a region asked for with `length` bytes: `length` rounded up to
/// whole pages. A request for zero bytes is refused before the kernel is asked.
pub fn region_len(length: usize) -> (r: Result<usize, RegionError>)
    ensures
        r == Err::<usize, RegionError>(RegionError::ZeroLength) <==> length == 0,
        r == Err::<usize, RegionError>(RegionError::TooLarge) <==> (length > 0 && page_ceil(
            length as int,
        ) > usize::MAX),
        r is Ok <==> (length > 0 && page_ceil(length as int) <= usize::MAX),
        r is Ok ==> r->Ok_0 == page_ceil(length as int),
{
    if length == 0 {
        Err(RegionError::ZeroLength)
    } else if length > usize::MAX - (PAGE_SIZE - 1) {
        assert(page_ceil(length as int) > usize::MAX);
        Err(RegionError::TooLarge)
    } else {
        Ok(next_page_boundary(length))
    }
}

/// The address range of a region: whole pages, starting on a page boundary.
pub struct PageSpan {
    base: usize,
    len: usize,
}

/// The range of addresses that a span stands for.
pub struct SpanView {
    pub base: nat,
    pub len: nat,
}

/// A range of whole pages that lies in the address space, not at address zero.
pub open spec fn is_page_range(base: int, len: int) -> bool {
    &&& base > 0
    &&& len > 0
    &&& base % PAGE_SIZE as int == 0
    &&& len % PAGE_SIZE as int == 0
    &&& base + len <= usize::MAX
}

impl View for PageSpan {
    type V = SpanView;

    closed spec fn view(&self) -> SpanView {
        SpanView { base: self.base as nat, len: self.len as nat }
    }
}

/// The page-aligned covering of `n` bytes from `offset` in a region of `len` bytes,
/// cut at the region's end: its start and its length. It is empty where the range is.
pub open spec fn cover(len: int, offset: int, n: int) -> (int, int) {
    if offset >= len || n == 0 {
        (len, 0)
    } else {
        let end = if n >= len - offset {
            len
        } else {
            page_ceil(offset + n)
        };
        (page_floor(offset), end - page_floor(offset))
    }
}

impl PageSpan {
    #[verifier::type_invariant]
    spec fn inv(self) -> bool {
        is_page_range(self.base as int, self.len as int)
    }

    /// Takes the kernel's answer to a request for `len` bytes: `addr` is where the
    /// mapping starts, zero or the all-ones address where it failed.
    pub fn from_mapping(addr: usize, len: usize) -> (r: Result<PageSpan, RegionError>)
        ensures
            r == Err::<PageSpan, RegionError>(RegionError::MapFailed) <==> (addr == 0 || addr
                == usize::MAX),
            r == Err::<PageSpan, RegionError>(RegionError::Misaligned) <==> (addr != 0 && addr
                != usize::MAX && !is_page_range(addr as int, len as int)),
            r is Ok <==> is_page_range(addr as int, len as int),
            r is Ok ==> r->Ok_0@ == (SpanView { base: addr as nat, len: len as nat }),
    {
        if addr == 0 || addr == usize::MAX {
            Err(RegionError::MapFailed)
        } else if addr % PAGE_SIZE != 0 || len == 0 || len % PAGE_SIZE != 0 || len > usize::MAX
            - addr {
            Err(RegionError::Misaligned)
        } else {
            Ok(PageSpan { base: addr, len })
        }
    }

    /// The address of the first byte: a page boundary, never zero.
    pub fn base(&self) -> (r: usize)
        ensures
            r == self@.base,
            is_page_range(self@.base as int, self@.len as int),
    {
        proof {
            use_type_invariant(self);
        }
        self.base
    }

    /// The length in bytes: a positive multiple of the page size.
    pub fn len(&self) -> (r: usize)
        ensures
            r == self@.len,
            is_page_range(self@.base as int, self@.len as int),
    {
        proof {
            use_type_invariant(self);
        }
        self.len
    }

    /// Whether `offset` names a byte of the region.
    pub fn contains_offset(&self, offset: usize) -> (r: bool)
        ensures
            r == (offset < self@.len),
    {
        offset < self.len
    }

    /// The address of the byte at `offset`.
    pub fn address(&self, offset: usize) -> (r: usize)
        requires
            offset < self@.len,
        ensures
            r == self@.base + offset,
    {
        proof {
            use_type_invariant(self);
        }
        self.base + offset
    }

    /// How many bytes a hint that `used` bytes are needed soon covers: no more than
    /// the region holds.
    pub fn advise_len(&self, used: usize) -> (r: usize)
        ensures
            r == if used < self@.len {
                used as nat
            } else {
                self@.len
            },
    {
        if used < self.len {
            used
        } else {
            self.len
        }
    }

    /// How many bytes a move of the region into a region of `new_len` bytes keeps.
    pub fn preserved_len(&self, new_len: usize) -> (r: usize)
        ensures
            r == if new_len < self@.len {
                new_len as nat
            } else {
                self@.len
            },
    {
        if new_len < self.len {
            new_len
        } else {
            self.len
        }
    }

    /// The whole pages to release for a decommit of `n` bytes from `offset`: the start
    /// offset and the length of their covering, cut at the region's end.
    pub fn decommit_range(&self, offset: usize, n: usize) -> (r: (usize, usize))
        ensures
            (r.0 as int, r.1 as int) == cover(self@.len as int, offset as int, n as int),
    {
        proof {
            use_type_invariant(self);
            lemma_page_floor(offset as int);
        }
        if offset >= self.len || n == 0 {
            (self.len, 0)
        } else {
            proof {
                lemma_page_ceil((offset + n) as int);
            }
            let start = (offset / PAGE_SIZE) * PAGE_SIZE;
            let end = if n >= self.len - offset {
                self.len
            } else {
                next_page_boundary(offset + n)
            };
            (start, end - start)
        }
    }
}

/// The covering of a range holds whole pages, lies in the region and holds every
/// byte of the range that lies in the region: from `offset` up to the range's end or
/// the region's, whichever comes first.
pub proof fn lemma_cover(len: int, offset: int, n: int)
    requires
        len > 0,
        len % PAGE_SIZE as int == 0,
        offset >= 0,
        n >= 0,
    ensures
        cover(len, offset, n).0 % PAGE_SIZE as int == 0,
        cover(len, offset, n).1 % PAGE_SIZE as int == 0,
        0 <= cover(len, offset, n).0,
        0 <= cover(len, offset, n).1,
        cover(len, offset, n).0 + cover(len, offset, n).1 <= len,
        offset < len && n > 0 ==> cover(len, offset, n).0 <= offset,
        offset < len && n > 0 ==> (if offset + n < len {
            offset + n
        } else {
            len
        }) <= cover(len, offset, n).0 + cover(len, offset, n).1,
{
    lemma_page_floor(offset);
    lemma_page_ceil(offset + n);
    lemma_page_ceil(len);
}

/// The POSIX protection call that a transition between two triples needs: none where
/// the kernel already holds the target protection.
pub open spec fn posix_plan(from: Perm, to: Perm) -> Option<int> {
    if posix_bits(from) == posix_bits(to) {
        None
    } else {
        Some(posix_bits(to))
    }
}

/// The Windows protection call that a transition between two triples needs.
pub open spec fn windows_plan(from: Perm, to: Perm) -> Option<WinProtect> {
    if win_class(from) == win_class(to) {
        None
    } else {
        Some(win_class(to))
    }
}

/// The protection a kernel holds after a planned call, or the one it held.
pub open spec fn after_call<P>(held: P, plan: Option<P>) -> P {
    match plan {
        Some(p) => p,
        None => held,
    }
}

/// The POSIX protection word to set when a region goes from `from` to `to`, or none
/// where the two words are identical and the kernel call is left out.
pub fn posix_transition(from: Perm, to: Perm) -> (r: Option<i32>)
    ensures
        r matches Some(m) ==> posix_plan(from, to) == Some(m as int),
        r is None <==> posix_plan(from, to) is None,
{
    let a = from.posix_mask();
    let b = to.posix_mask();
    if a == b {
        None
    } else {
        Some(b)
    }
}

/// The Windows protection class to set when a region goes from `from` to `to`, or
/// none where the two classes are identical and the kernel call is left out.
pub fn windows_transition(from: Perm, to: Perm) -> (r: Option<WinProtect>)
    ensures
        r == windows_plan(from, to),
{
    let a = from.windows_protect();
    let b = to.windows_protect();
    if a == b {
        None
    } else {
        Some(b)
    }
}

/// A transition into the state a region is in makes no kernel call, and a transition
/// to any state and back leaves the kernel with the protection it held, on either
/// kernel. A transition never moves or resizes the region, nor writes its bytes.
pub proof fn lemma_transition_identity(p: Perm, q: Perm)
    ensures
        posix_plan(p, p) is None,
        windows_plan(p, p) is None,
        after_call(after_call(posix_bits(p), posix_plan(p, q)), posix_plan(q, p)) == posix_bits(
            p,
        ),
        after_call(after_call(win_class(p), windows_plan(p, q)), windows_plan(q, p)) == win_class(
            p,
        ),
{
}

/// The access pattern that a hint to the kernel announces.
#[derive(Clone, Copy, Debug, PartialEq, Eq, Structural)]
pub enum Advice {
    /// The pages will be needed soon.
    WillNeed,
    /// The pages will be read in order.
    Sequential,
    /// The pages will be read in no order.
    Random,
    /// The pages' contents are no longer needed.
    DontNeed,
}

/// The POSIX advice code of a hint.
pub open spec fn advice_code(a: Advice) -> int {
    match a {
        Advice::WillNeed => 3,
        Advice::Sequential => 2,
        Advice::Random => 1,
        Advice::DontNeed => 4,
    }
}

impl Advice {
    /// The POSIX advice code of this hint.
    pub fn posix_code(self) -> (r: i32)
        ensures
            r == advice_code(self),
    {
        match self {
            Advice::WillNeed => 3,
            Advice::Sequential => 2,
            Advice::Random => 1,
            Advice::DontNeed => 4,
        }
    }
}

} // verus!
