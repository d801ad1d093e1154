//! The early allocator: bytes from the low end, pages from the high end.
use vstd::prelude::*;
use vstd::arithmetic::div_mod::{
    lemma_div_multiples_vanish_fancy,
    lemma_div_pos_is_pos,
    lemma_fundamental_div_mod,
    lemma_mod_multiples_basic,
    lemma_mod_pos_bound,
};
use crate::align::{
    align_down,
    align_down_usize,
    align_up,
    checked_align_up,
    is_pow2,
    lemma_align_down,
    lemma_align_up,
    lemma_mod_transitive,
    lemma_pow2_divides,
};

verus! {

/// Why an operation of the allocator failed.
#[derive(Debug, Clone, Copy, PartialEq, Eq, Structural)]
pub enum AllocError {
    /// The free gap between the two cursors cannot hold the request.
    NoMemory,
    /// The operation is not offered by this allocator.
    Unsupported,
}

/// The state of an allocator as mathematical integers.
///
/// ```text
/// [ bytes-used | avail-area | pages-used ]
/// |            | -->    <-- |            |
/// start       b_pos        p_pos       end
/// ```
pub struct RegionView {
    pub start: int,
    pub end: int,
    pub b_pos: int,
    pub p_pos: int,
    pub count: int,
}

impl RegionView {
    /// The cursors stay ordered within the region, the page cursor stays on a
    /// page boundary, and with no live byte allocation the byte area is empty.
    pub open spec fn wf(self, page_size: int) -> bool {
        &&& 0 <= self.start <= self.b_pos <= self.p_pos <= self.end <= usize::MAX
        &&& 0 <= self.count <= usize::MAX
        &&& page_size > 0 ==> self.p_pos % page_size == 0
        &&& self.count == 0 ==> self.b_pos == self.start
    }

    pub open spec fn total_bytes(self) -> int {
        self.p_pos - self.start
    }

    pub open spec fn used_bytes(self) -> int {
        self.b_pos - self.start
    }

    pub open spec fn available_bytes(self) -> int {
        self.p_pos - self.b_pos
    }

    pub open spec fn total_pages(self, page_size: int) -> int {
        (self.end - self.b_pos) / page_size
    }

    pub open spec fn used_pages(self, page_size: int) -> int {
        (self.end - self.p_pos) / page_size
    }

    pub open spec fn available_pages(self, page_size: int) -> int {
        self.available_bytes() / page_size
    }

    /// The address a byte allocation with alignment `align` would get.
    pub open spec fn byte_slot(self, align: int) -> int {
        align_up(self.b_pos, align)
    }

    /// A byte allocation of `size` at alignment `align` fits below `p_pos`.
    pub open spec fn bytes_fit(self, size: int, align: int) -> bool {
        self.byte_slot(align) + size <= self.p_pos
    }

    /// The base address a run of `num_pages` pages aligned to `align` would get.
    pub open spec fn page_slot(self, num_pages: int, align: int, page_size: int) -> int {
        align_down(self.p_pos - num_pages * page_size, align)
    }

    /// The run of pages fits above `b_pos`, and the gap left behind still
    /// holds at least `num_pages` whole pages.
    pub open spec fn pages_fit(self, num_pages: int, align: int, page_size: int) -> bool {
        &&& num_pages * page_size <= self.p_pos
        &&& self.b_pos <= self.page_slot(num_pages, align, page_size)
        &&& (self.page_slot(num_pages, align, page_size) - self.b_pos) / page_size >= num_pages
    }
}

/// An allocator over one region `[start, end)`, with pages of `SIZE` bytes.
pub struct EarlyAllocator<const SIZE: usize> {
    start: usize,
    end: usize,
    b_pos: usize,
    p_pos: usize,
    count: usize,
}

impl<const SIZE: usize> View for EarlyAllocator<SIZE> {
    type V = RegionView;

    closed spec fn view(&self) -> RegionView {
        RegionView {
            start: self.start as int,
            end: self.end as int,
            b_pos: self.b_pos as int,
            p_pos: self.p_pos as int,
            count: self.count as int,
        }
    }
}

impl<const SIZE: usize> EarlyAllocator<SIZE> {
    pub open spec fn wf(&self) -> bool {
        self@.wf(SIZE as int)
    }

    /// An inert allocator: every field is zero.
    pub fn new() -> (r: Self)
        ensures
            r.wf(),
            r@ == (RegionView { start: 0, end: 0, b_pos: 0, p_pos: 0, count: 0 }),
    {
        proof {
            if SIZE > 0 {
                lemma_mod_multiples_basic(0, SIZE as int);
            }
        }
        EarlyAllocator { start: 0, end: 0, b_pos: 0, p_pos: 0, count: 0 }
    }

    /// The page size `SIZE`.
    pub fn page_size(&self) -> (r: usize)
        ensures
            r == SIZE,
    {
        SIZE
    }

    pub fn start(&self) -> (r: usize)
        ensures
            r == self@.start,
    {
        self.start
    }

    pub fn end(&self) -> (r: usize)
        ensures
            r == self@.end,
    {
        self.end
    }

    pub fn b_pos(&self) -> (r: usize)
        ensures
            r == self@.b_pos,
    {
        self.b_pos
    }

    pub fn p_pos(&self) -> (r: usize)
        ensures
            r == self@.p_pos,
    {
        self.p_pos
    }

    /// The number of live byte allocations.
    pub fn count(&self) -> (r: usize)
        ensures
            r == self@.count,
    {
        self.count
    }

    /// Sets up the region `[start, start + size)`: the byte cursor at `start`,
    /// the page cursor at the last page boundary at or below the end, and no
    /// live allocation. A second call re-bases the allocator.
    pub fn init(&mut self, start: usize, size: usize)
        requires
            SIZE > 0,
            start + size <= usize::MAX,
            (start + size) / (SIZE as int) * SIZE >= start,
        ensures
            final(self).wf(),
            final(self)@ == (RegionView {
                start: start as int,
                end: start + size,
                b_pos: start as int,
                p_pos: (start + size) / (SIZE as int) * SIZE,
                count: 0,
            }),
            (start as int) % (SIZE as int) == 0
                ==> final(self)@.p_pos == start + (size as int) / (SIZE as int) * SIZE,
    {
        let end = start + size;
        proof {
            let p = SIZE as int;
            let e = end as int;
            let st = start as int;
            let sz = size as int;
            lemma_align_down(e, p);
            lemma_fundamental_div_mod(e, p);
            assert(e / p * p == align_down(e, p)) by (nonlinear_arith)
                requires
                    e == p * (e / p) + e % p,
                    align_down(e, p) == e - e % p,
            ;
            if st % p == 0 {
                lemma_fundamental_div_mod(st, p);
                lemma_fundamental_div_mod(sz, p);
                lemma_mod_pos_bound(sz, p);
                let q = st / p + sz / p;
                assert(e == p * q + sz % p) by (nonlinear_arith)
                    requires
                        st == p * (st / p) + st % p,
                        st % p == 0,
                        sz == p * (sz / p) + sz % p,
                        e == st + sz,
                        q == st / p + sz / p,
                ;
                lemma_div_multiples_vanish_fancy(q, sz % p, p);
                assert(e / p * p == st + sz / p * p) by (nonlinear_arith)
                    requires
                        e / p == q,
                        st == p * (st / p) + st % p,
                        st % p == 0,
                        q == st / p + sz / p,
                ;
            }
        }
        self.start = start;
        self.end = end;
        self.b_pos = start;
        self.p_pos = (end / SIZE) * SIZE;
        self.count = 0;
    }

    /// Allocates `size` bytes at the first address at or above `b_pos` that
    /// is a multiple of `align`. Fails with `NoMemory`, changing nothing,
    /// where the block would pass the page cursor.
    pub fn alloc_bytes(&mut self, size: usize, align: usize) -> (r: Result<usize, AllocError>)
        requires
            old(self).wf(),
            is_pow2(align as int),
            old(self)@.count < usize::MAX,
        ensures
            final(self).wf(),
            match r {
                Ok(addr) => {
                    &&& old(self)@.bytes_fit(size as int, align as int)
                    &&& addr == old(self)@.byte_slot(align as int)
                    &&& final(self)@ == (RegionView {
                        b_pos: addr + size,
                        count: old(self)@.count + 1,
                        ..old(self)@
                    })
                },
                Err(e) => {
                    &&& !old(self)@.bytes_fit(size as int, align as int)
                    &&& e == AllocError::NoMemory
                    &&& final(self)@ == old(self)@
                },
            },
            r is Ok ==> r->Ok_0 % align == 0,
            final(self)@.p_pos == old(self)@.p_pos,
    {
        proof {
            lemma_align_up(self.b_pos as int, align as int);
        }
        match checked_align_up(self.b_pos, align) {
            None => Err(AllocError::NoMemory),
            Some(addr) => {
                if addr > self.p_pos || self.p_pos - addr < size {
                    Err(AllocError::NoMemory)
                } else {
                    self.count = self.count + 1;
                    self.b_pos = addr + size;
                    Ok(addr)
                }
            },
        }
    }

    /// Frees the byte block `[addr, addr + size)`, which must lie in the
    /// byte area. The byte area is emptied when the last live allocation
    /// goes, and shrinks when the freed block ends at `b_pos`; any other
    /// block stays out of use until then.
    pub fn dealloc(&mut self, addr: usize, size: usize)
        requires
            old(self).wf(),
            old(self)@.count > 0,
            old(self)@.start <= addr,
            addr + size <= old(self)@.b_pos,
        ensures
            final(self).wf(),
            final(self)@.count == old(self)@.count - 1,
            final(self)@.count == 0 ==> final(self)@.b_pos == old(self)@.start,
            final(self)@.count > 0 && addr + size == old(self)@.b_pos
                ==> final(self)@.b_pos == old(self)@.b_pos - size,
            final(self)@.count > 0 && addr + size != old(self)@.b_pos
                ==> final(self)@.b_pos == old(self)@.b_pos,
            final(self)@.start == old(self)@.start,
            final(self)@.end == old(self)@.end,
            final(self)@.p_pos == old(self)@.p_pos,
    {
        self.count = self.count - 1;
        if self.count == 0 {
            self.b_pos = self.start;
        } else if addr + size == self.b_pos {
            self.b_pos = self.b_pos - size;
        }
    }

    /// Takes `num_pages` pages from below the page cursor, with the base
    /// rounded down to a multiple of `align_pow2`. Fails with `NoMemory`,
    /// changing nothing, where the run does not fit (see `pages_fit`).
    /// Pages handed out are never taken back.
    pub fn alloc_pages(&mut self, num_pages: usize, align_pow2: usize) -> (r: Result<usize, AllocError>)
        requires
            old(self).wf(),
            is_pow2(SIZE as int),
            is_pow2(align_pow2 as int),
        ensures
            final(self).wf(),
            match r {
                Ok(addr) => {
                    &&& old(self)@.pages_fit(num_pages as int, align_pow2 as int, SIZE as int)
                    &&& addr == old(self)@.page_slot(num_pages as int, align_pow2 as int, SIZE as int)
                    &&& final(self)@ == (RegionView { p_pos: addr as int, ..old(self)@ })
                },
                Err(e) => {
                    &&& !old(self)@.pages_fit(num_pages as int, align_pow2 as int, SIZE as int)
                    &&& e == AllocError::NoMemory
                    &&& final(self)@ == old(self)@
                },
            },
            r is Ok ==> r->Ok_0 % align_pow2 == 0 && r->Ok_0 % SIZE == 0,
            final(self)@.p_pos <= old(self)@.p_pos,
    {
        let bytes = match num_pages.checked_mul(SIZE) {
            Some(b) => b,
            None => return Err(AllocError::NoMemory),
        };
        if bytes > self.p_pos {
            return Err(AllocError::NoMemory);
        }
        let slot = align_down_usize(self.p_pos - bytes, align_pow2);
        if slot < self.b_pos || (slot - self.b_pos) / SIZE < num_pages {
            return Err(AllocError::NoMemory);
        }
        proof {
            let p = SIZE as int;
            let al = align_pow2 as int;
            let pp = self.p_pos as int;
            let n = num_pages as int;
            let x = pp - bytes;
            lemma_align_down(x, al);
            lemma_fundamental_div_mod(pp, p);
            let q = pp / p;
            assert(x == (q - n) * p) by (nonlinear_arith)
                requires
                    pp == p * q + pp % p,
                    pp % p == 0,
                    bytes == n * p,
                    x == pp - bytes,
            ;
            lemma_mod_multiples_basic(q - n, p);
            if al <= p {
                lemma_pow2_divides(al, p);
                lemma_mod_transitive(x, p, al);
            } else {
                lemma_pow2_divides(p, al);
                lemma_mod_transitive(slot as int, al, p);
            }
        }
        self.p_pos = slot;
        Ok(slot)
    }

    /// Growing the region is not offered: always `Unsupported`, and nothing changes.
    pub fn add_memory(&mut self, start: usize, size: usize) -> (r: Result<(), AllocError>)
        ensures
            r == Err::<(), AllocError>(AllocError::Unsupported),
            final(self)@ == old(self)@,
    {
        Err(AllocError::Unsupported)
    }

    /// Pages are never given back: always `Unsupported`, and nothing changes.
    pub fn dealloc_pages(&mut self, pos: usize, num_pages: usize) -> (r: Result<(), AllocError>)
        ensures
            r == Err::<(), AllocError>(AllocError::Unsupported),
            final(self)@ == old(self)@,
    {
        Err(AllocError::Unsupported)
    }

    /// The bytes from `start` to the page cursor.
    pub fn total_bytes(&self) -> (r: usize)
        requires
            self.wf(),
        ensures
            r == self@.total_bytes(),
    {
        self.p_pos - self.start
    }

    /// The bytes from `start` to the byte cursor.
    pub fn used_bytes(&self) -> (r: usize)
        requires
            self.wf(),
        ensures
            r == self@.used_bytes(),
    {
        self.b_pos - self.start
    }

    /// The gap between the two cursors.
    pub fn available_bytes(&self) -> (r: usize)
        requires
            self.wf(),
        ensures
            r == self@.available_bytes(),
    {
        self.p_pos - self.b_pos
    }

    /// Whole pages between the byte cursor and `end`.
    pub fn total_pages(&self) -> (r: usize)
        requires
            self.wf(),
            SIZE > 0,
        ensures
            r == self@.total_pages(SIZE as int),
    {
        (self.end - self.b_pos) / SIZE
    }

    /// Whole pages between the page cursor and `end`.
    pub fn used_pages(&self) -> (r: usize)
        requires
            self.wf(),
            SIZE > 0,
        ensures
            r == self@.used_pages(SIZE as int),
    {
        (self.end - self.p_pos) / SIZE
    }

    /// Whole pages in the gap between the two cursors.
    pub fn available_pages(&self) -> (r: usize)
        requires
            self.wf(),
            SIZE > 0,
        ensures
            r == self@.available_pages(SIZE as int),
    {
        self.available_bytes() / SIZE
    }
}

/// In every well-formed state the used and the available bytes make up the
/// total, the available bytes are the gap between the two cursors, and the
/// page cursor stands on a page boundary.
pub proof fn lemma_accounting<const SIZE: usize>(a: &EarlyAllocator<SIZE>)
    requires
        a.wf(),
        SIZE > 0,
    ensures
        a@.used_bytes() + a@.available_bytes() == a@.total_bytes(),
        a@.available_bytes() == a@.p_pos - a@.b_pos,
        a@.used_pages(SIZE as int) + a@.available_pages(SIZE as int) >= a@.used_pages(SIZE as int),
        a@.p_pos % (SIZE as int) == 0,
{
    lemma_div_pos_is_pos(a@.available_bytes(), SIZE as int);
}

} // verus!
