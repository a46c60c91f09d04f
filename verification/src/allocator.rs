//! The region allocator: a bump-pointer allocator over a contiguous address
//! range `[heap_start, heap_end)`. It hands out monotonically increasing,
//! alignment-satisfying sub-ranges and never reclaims; the cursor `next` only
//! moves forward. Exclusive access is the caller's duty — the surrounding
//! runtime guards the cursor with a spin lock, since an interrupt handler may
//! allocate concurrently with the main flow — so the contracts here describe
//! one caller at a time holding `&mut` access.

use vstd::arithmetic::div_mod::{
    lemma_fundamental_div_mod, lemma_mod_division_less_than_divisor, lemma_mod_multiples_basic,
};
use vstd::arithmetic::power2::{
    lemma2_to64, lemma_pow2_pos, lemma_pow2_strictly_increases, lemma_pow2_unfold, pow2,
};
use vstd::bits::lemma_usize_low_bits_mask_is_mod;
use vstd::layout::unsigned_int_max_values;
use vstd::prelude::*;

verus! {

/// A bump-pointer allocator over the region `[heap_start, heap_end)`.
/// `next` is the cursor: everything below it has been handed out.
pub struct BumpAllocator {
    pub heap_start: usize,
    pub heap_end: usize,
    pub next: usize,
}

/// `align` is a power of two (the only alignments the allocator accepts).
pub open spec fn spec_is_pow2(align: usize) -> bool {
    exists|n: nat| n < usize::BITS as nat && #[trigger] pow2(n) == align as nat
}

/// The least multiple of `align` that is at least `addr`.
pub open spec fn spec_align_up(addr: int, align: int) -> int
    recommends
        0 < align,
{
    if addr % align == 0 {
        addr
    } else {
        addr + (align - addr % align)
    }
}

/// What one allocation request does to the allocator, as a mathematical step:
/// round the cursor up to `align`, grant `[aligned, aligned + size)` if it
/// fits below `heap_end`, and otherwise leave the state untouched.
pub open spec fn spec_allocate(a: BumpAllocator, size: usize, align: usize) -> (BumpAllocator, Option<
    usize,
>) {
    let aligned = spec_align_up(a.next as int, align as int);
    if a.next + align - 1 <= usize::MAX && aligned + size <= a.heap_end {
        (
            BumpAllocator {
                heap_start: a.heap_start,
                heap_end: a.heap_end,
                next: (aligned + size) as usize,
            },
            Some(aligned as usize),
        )
    } else {
        (a, None)
    }
}

/// The allocator's invariant: the cursor stays inside the region.
pub open spec fn spec_wf(a: BumpAllocator) -> bool {
    a.heap_start <= a.next <= a.heap_end
}

/// A power of two is at least one.
proof fn lemma_pow2_align_pos(align: usize)
    requires
        spec_is_pow2(align),
    ensures
        1 <= align,
{
    let n = choose|n: nat| n < usize::BITS as nat && #[trigger] pow2(n) == align as nat;
    lemma_pow2_pos(n);
}

/// The two halves that a mask splits a word into add back up to the word.
proof fn lemma_mask_split(x: usize, m: usize)
    by (bit_vector)
    ensures
        (x & !m) + (x & m) == x,
{
}

/// Clearing the low bits of a power of two `align` in `u` yields the largest
/// multiple of `align` that is at most `u`, and it is less than `align` away.
proof fn lemma_mask_align(u: usize, align: usize)
    requires
        spec_is_pow2(align),
    ensures
        ({
            let r = u & !((align - 1) as usize);
            r as int % align as int == 0 && u - align < r <= u
        }),
{
    let n = choose|n: nat| n < usize::BITS as nat && #[trigger] pow2(n) == align as nat;
    lemma_pow2_pos(n);
    lemma_usize_low_bits_mask_is_mod(u, n);
    assert(u & ((align - 1) as usize) == u % align);
    lemma_mask_split(u, (align - 1) as usize);
    let r = u & !((align - 1) as usize);
    assert(r == u - u % align);
    lemma_mod_division_less_than_divisor(u as int, align as int);
    lemma_fundamental_div_mod(u as int, align as int);
    assert(r as int == (u as int / align as int) * align as int);
    lemma_mod_multiples_basic(u as int / align as int, align as int);
}

/// `spec_align_up` lands on a multiple of `align` within `align` of `addr`.
pub proof fn lemma_align_up_props(addr: int, align: int)
    by (nonlinear_arith)
    requires
        0 < align,
        0 <= addr,
    ensures
        spec_align_up(addr, align) % align == 0,
        addr <= spec_align_up(addr, align) < addr + align,
{
}

/// A multiple of `align` in `[addr, addr + align)` is unique, and it is
/// exactly `spec_align_up(addr, align)`.
pub proof fn lemma_align_up_unique(addr: int, align: int, r: int)
    by (nonlinear_arith)
    requires
        0 < align,
        0 <= addr,
        r % align == 0,
        addr <= r < addr + align,
    ensures
        r == spec_align_up(addr, align),
{
}

impl BumpAllocator {
    /// An empty allocator; unusable until `init` gives it a region.
    pub fn new() -> (a: BumpAllocator)
        ensures
            a.heap_start == 0,
            a.heap_end == 0,
            a.next == 0,
            spec_wf(a),
    {
        BumpAllocator { heap_start: 0, heap_end: 0, next: 0 }
    }

    /// Adopts the region `[heap_start, heap_start + heap_size)` and resets the
    /// cursor to its start. To be called exactly once, before any allocation;
    /// the caller's protocol must prevent a second call.
    pub fn init(&mut self, heap_start: usize, heap_size: usize)
        requires
            heap_start + heap_size <= usize::MAX,
        ensures
            final(self).heap_start == heap_start,
            final(self).heap_end == heap_start + heap_size,
            final(self).next == heap_start,
            spec_wf(*final(self)),
    {
        self.heap_start = heap_start;
        self.heap_end = heap_start + heap_size;
        self.next = heap_start;
    }

    /// One allocation request: returns the aligned address of a fresh
    /// `size`-byte range, or `None` for out-of-memory. A failed request
    /// leaves the allocator exactly as it was, so repeating it fails the
    /// same way; wrap-around of the address arithmetic is detected and
    /// reported as out-of-memory, never committed.
    pub fn allocate(&mut self, size: usize, align: usize) -> (r: Option<usize>)
        requires
            spec_wf(*old(self)),
            spec_is_pow2(align),
        ensures
            (*final(self), r) == spec_allocate(*old(self), size, align),
            spec_wf(*final(self)),
            final(self).heap_start == old(self).heap_start,
            final(self).heap_end == old(self).heap_end,
            old(self).next <= final(self).next,
            r is Some <==> old(self).next + align - 1 <= usize::MAX && spec_align_up(
                old(self).next as int,
                align as int,
            ) + size <= old(self).heap_end,
            r matches Some(addr) ==> addr == spec_align_up(
                old(self).next as int,
                align as int,
            ) && addr as int % align as int == 0 && old(self).next <= addr && addr + size <= old(
                self,
            ).heap_end && final(self).next == addr + size,
            r is None ==> *final(self) == *old(self),
    {
        proof {
            lemma_pow2_align_pos(align);
            lemma_align_up_props(self.next as int, align as int);
        }
        let alloc_start = match self.next.checked_add(align - 1) {
            Some(upper) => {
                proof {
                    lemma_mask_align(upper, align);
                    lemma_align_up_unique(
                        self.next as int,
                        align as int,
                        (upper & !((align - 1) as usize)) as int,
                    );
                }
                upper & !(align - 1)
            },
            None => {
                return None;
            },
        };
        let alloc_end = match alloc_start.checked_add(size) {
            Some(end) => end,
            None => {
                return None;
            },
        };
        if alloc_end > self.heap_end {
            None
        } else {
            self.next = alloc_end;
            Some(alloc_start)
        }
    }

    /// Deallocation is a documented no-op: the region allocator never
    /// reclaims memory for the lifetime of the process.
    pub fn deallocate(&mut self, _addr: usize, _size: usize)
        ensures
            *final(self) == *old(self),
    {
    }
}

/// Rounds `addr` up to the next multiple of `align` with the mask trick
/// `(addr + align - 1) & !(align - 1)`.
pub fn align_up(addr: usize, align: usize) -> (r: usize)
    requires
        spec_is_pow2(align),
        addr + align - 1 <= usize::MAX,
    ensures
        r == spec_align_up(addr as int, align as int),
{
    proof {
        lemma_pow2_align_pos(align);
        lemma_mask_align((addr + align - 1) as usize, align);
        lemma_align_up_props(addr as int, align as int);
        lemma_align_up_unique(
            addr as int,
            align as int,
            (((addr + align - 1) as usize) & !((align - 1) as usize)) as int,
        );
    }
    (addr + (align - 1)) & !(align - 1)
}

/// The allocator state and result sequence after serving a sequence of
/// `(size, align)` requests in order.
pub open spec fn spec_run_allocate(a: BumpAllocator, reqs: Seq<(usize, usize)>) -> (
    BumpAllocator,
    Seq<Option<usize>>,
)
    decreases reqs.len(),
{
    if reqs.len() == 0 {
        (a, Seq::empty())
    } else {
        let step = spec_allocate(a, reqs[0].0, reqs[0].1);
        let rest = spec_run_allocate(step.0, reqs.subrange(1, reqs.len() as int));
        (rest.0, seq![step.1] + rest.1)
    }
}

proof fn lemma_run_frame(a: BumpAllocator, reqs: Seq<(usize, usize)>)
    requires
        spec_wf(a),
        forall|k: int| 0 <= k < reqs.len() ==> spec_is_pow2((#[trigger] reqs[k]).1),
    ensures
        ({
            let (fin, res) = spec_run_allocate(a, reqs);
            &&& res.len() == reqs.len()
            &&& fin.heap_start == a.heap_start
            &&& fin.heap_end == a.heap_end
            &&& a.next <= fin.next
            &&& spec_wf(fin)
            &&& forall|k: int|
                0 <= k < res.len() ==> ((#[trigger] res[k]) matches Some(addr) ==> a.next <= addr
                    && addr as int % reqs[k].1 as int == 0 && addr + reqs[k].0 <= fin.next && addr
                    + reqs[k].0 <= a.heap_end)
        }),
    decreases reqs.len(),
{
    if reqs.len() != 0 {
        let step = spec_allocate(a, reqs[0].0, reqs[0].1);
        let rest_reqs = reqs.subrange(1, reqs.len() as int);
        lemma_pow2_align_pos(reqs[0].1);
        lemma_align_up_props(a.next as int, reqs[0].1 as int);
        assert(forall|k: int|
            0 <= k < rest_reqs.len() ==> spec_is_pow2((#[trigger] rest_reqs[k]).1));
        lemma_run_frame(step.0, rest_reqs);
        let (fin, res) = spec_run_allocate(a, reqs);
        let rest = spec_run_allocate(step.0, rest_reqs);
        assert forall|k: int|
            0 <= k < res.len() implies ((#[trigger] res[k]) matches Some(addr) ==> a.next <= addr
            && addr as int % reqs[k].1 as int == 0 && addr + reqs[k].0 <= fin.next && addr
            + reqs[k].0 <= a.heap_end) by {
            if k == 0 {
                assert(res[0] == step.1);
            } else {
                assert(res[k] == rest.1[k - 1]);
                assert(rest_reqs[k - 1] == reqs[k]);
            }
        }
    }
}

proof fn lemma_run_pairwise(a: BumpAllocator, reqs: Seq<(usize, usize)>, i: int, j: int)
    requires
        spec_wf(a),
        forall|k: int| 0 <= k < reqs.len() ==> spec_is_pow2((#[trigger] reqs[k]).1),
        0 <= i < j < reqs.len(),
    ensures
        ({
            let res = spec_run_allocate(a, reqs).1;
            res[i] matches Some(ai) ==> (res[j] matches Some(aj) ==> ai + reqs[i].0 <= aj)
        }),
    decreases i,
{
    let step = spec_allocate(a, reqs[0].0, reqs[0].1);
    let rest_reqs = reqs.subrange(1, reqs.len() as int);
    let res = spec_run_allocate(a, reqs).1;
    let rest = spec_run_allocate(step.0, rest_reqs);
    lemma_pow2_align_pos(reqs[0].1);
    lemma_align_up_props(a.next as int, reqs[0].1 as int);
    assert(forall|k: int| 0 <= k < rest_reqs.len() ==> spec_is_pow2((#[trigger] rest_reqs[k]).1));
    if i == 0 {
        lemma_run_frame(step.0, rest_reqs);
        assert(res[0] == step.1);
        assert(res[j] == rest.1[j - 1]);
    } else {
        lemma_run_frame(step.0, rest_reqs);
        lemma_run_pairwise(step.0, rest_reqs, i - 1, j - 1);
        assert(res[i] == rest.1[i - 1]);
        assert(res[j] == rest.1[j - 1]);
        assert(rest_reqs[i - 1] == reqs[i]);
    }
}

/// The allocation discipline, over any sequence of requests whose alignments
/// are powers of two: every granted address is a multiple of its requested
/// alignment and lies inside the region; granted ranges never overlap; and
/// the granted addresses are strictly increasing once sizes are non-zero.
pub proof fn lemma_allocate_discipline(a: BumpAllocator, reqs: Seq<(usize, usize)>)
    requires
        spec_wf(a),
        forall|k: int| 0 <= k < reqs.len() ==> spec_is_pow2((#[trigger] reqs[k]).1),
    ensures
        spec_run_allocate(a, reqs).1.len() == reqs.len(),
        forall|k: int|
            0 <= k < reqs.len() ==> ((#[trigger] spec_run_allocate(a, reqs).1[k]) matches Some(
                addr,
            ) ==> addr as int % reqs[k].1 as int == 0 && a.next <= addr && addr + reqs[k].0
                <= a.heap_end),
        forall|i: int, j: int|
            0 <= i < j < reqs.len() ==> ((#[trigger] spec_run_allocate(a, reqs).1[i]) matches Some(
                ai,
            ) ==> ((#[trigger] spec_run_allocate(a, reqs).1[j]) matches Some(aj) ==> ai + reqs[i].0
                <= aj && (reqs[i].0 > 0 ==> ai < aj))),
{
    lemma_run_frame(a, reqs);
    assert forall|i: int, j: int|
        0 <= i < j < reqs.len() implies ((#[trigger] spec_run_allocate(a, reqs).1[i]) matches Some(
        ai,
    ) ==> ((#[trigger] spec_run_allocate(a, reqs).1[j]) matches Some(aj) ==> ai + reqs[i].0 <= aj
        && (reqs[i].0 > 0 ==> ai < aj))) by {
        lemma_run_pairwise(a, reqs, i, j);
    }
}

/// A failing request is idempotent: it leaves the allocator exactly as it
/// was, and repeating the same request fails again, leaving it unchanged
/// still.
pub proof fn lemma_failed_allocate_idempotent(a: BumpAllocator, size: usize, align: usize)
    requires
        spec_allocate(a, size, align).1 is None,
    ensures
        spec_allocate(a, size, align).0 == a,
        spec_allocate(spec_allocate(a, size, align).0, size, align) == spec_allocate(
            a,
            size,
            align,
        ),
{
}

/// An exponent whose power of two fits in a machine word is below the word
/// size in bits.
proof fn lemma_pow2_bounded_exponent(k: nat)
    requires
        pow2(k) <= usize::MAX as nat,
    ensures
        k < usize::BITS as nat,
{
    unsigned_int_max_values();
    if k > usize::BITS as nat {
        lemma_pow2_strictly_increases(usize::BITS as nat, k);
    }
}

/// Whether `align` is a power of two, decided at run time; callers use it to
/// establish `allocate`'s alignment precondition.
pub fn is_power_of_two(align: usize) -> (r: bool)
    ensures
        r == spec_is_pow2(align),
{
    if align == 0 {
        proof {
            assert forall|n: nat| #[trigger] pow2(n) != align as nat by {
                lemma_pow2_pos(n);
            }
        }
        return false;
    }
    let mut p: usize = 1;
    let ghost mut k: nat = 0;
    proof {
        lemma2_to64();
    }
    while p < align
        invariant
            1 <= align,
            p as nat == pow2(k),
            k < usize::BITS as nat,
            forall|m: nat| m < k ==> #[trigger] pow2(m) < align as nat,
        decreases usize::BITS as nat - k,
    {
        if p > usize::MAX / 2 {
            proof {
                unsigned_int_max_values();
                lemma_pow2_unfold(k + 1);
                assert forall|n: nat| #[trigger] pow2(n) != align as nat by {
                    if n < k {
                    } else if n == k {
                    } else if n > k + 1 {
                        lemma_pow2_strictly_increases(k + 1, n);
                    }
                }
            }
            return false;
        }
        p = p * 2;
        proof {
            lemma_pow2_unfold(k + 1);
            k = k + 1;
            lemma_pow2_bounded_exponent(k);
        }
    }
    proof {
        if p == align {
            lemma_pow2_bounded_exponent(k);
            assert(spec_is_pow2(align));
        } else {
            assert forall|n: nat| #[trigger] pow2(n) != align as nat by {
                if n > k {
                    lemma_pow2_strictly_increases(k, n);
                }
            }
        }
    }
    p == align
}

} // verus!
