//! A buddy allocator over `2^order` page-sized units.
//!
//! Blocks are powers of two in size and aligned to their size. A request for
//! `n` units is rounded up to the next power of two and served by the lowest
//! free block of that size; freeing a block makes its units free again, so a
//! block and its buddy, once both are free, form the free block of the next
//! order. The allocator records, per unit, whether it is in use: the free
//! blocks of every order are read off that map, which keeps merging exact.
use vstd::prelude::*;
use vstd::arithmetic::power2::{lemma2_to64, lemma_pow2_strictly_increases, lemma_pow2_unfold, pow2};

verus! {

pub open spec fn is_pow2(p: nat) -> bool
    decreases p,
{
    if p == 1 {
        true
    } else if p < 2 || p % 2 != 0 {
        false
    } else {
        is_pow2(p / 2)
    }
}

/// The block size that serves a request for `n` units: the least power of
/// two that is at least `n`.
pub open spec fn is_block_size(p: nat, n: nat) -> bool {
    is_pow2(p) && p >= n && (p == 1 || p / 2 < n)
}

/// Units `[i, i + p)` lie within `used` and none of them is in use.
pub open spec fn block_free(used: Seq<bool>, i: int, p: int) -> bool {
    0 <= i && i + p <= used.len() && forall|u: int| i <= u < i + p ==> !#[trigger] used[u]
}

/// `used` with units `[i, i + p)` set to `v`.
pub open spec fn mark(used: Seq<bool>, i: int, p: int, v: bool) -> Seq<bool> {
    Seq::new(used.len(), |u: int| if i <= u < i + p { v } else { used[u] })
}

/// What `allocate(n)` does to the units in use, `before` to `after`, and
/// what it returns: the lowest free block of the size serving `n`, now in
/// use, or `None` with nothing changed when no block of that size is free.
pub open spec fn allocation(before: Seq<bool>, after: Seq<bool>, n: nat, r: Option<usize>) -> bool {
    match r {
        Some(i) => exists|p: nat|
            #![trigger is_block_size(p, n)]
            {
                &&& is_block_size(p, n)
                &&& (i as int) % (p as int) == 0
                &&& block_free(before, i as int, p as int)
                &&& after == mark(before, i as int, p as int, true)
                &&& forall|b: int|
                    0 <= b < i && b % (p as int) == 0 ==> !block_free(before, b, p as int)
            },
        None => {
            &&& after == before
            &&& forall|p: nat, b: int|
                is_block_size(p, n) && b % (p as int) == 0 ==> !block_free(before, b, p as int)
        },
    }
}

pub struct BuddyAllocator {
    used: Vec<bool>,
    order: usize,
}

impl BuddyAllocator {
    /// Which units are in use.
    pub closed spec fn used(&self) -> Seq<bool> {
        self.used@
    }

    /// log2 of the number of units managed.
    pub closed spec fn order(&self) -> nat {
        self.order as nat
    }

    pub closed spec fn wf(&self) -> bool {
        &&& self.order <= 31
        &&& self.used@.len() == pow2(self.order as nat)
    }

    /// Number of units managed.
    pub fn units(&self) -> (r: usize)
        ensures
            r == self.used().len(),
    {
        self.used.len()
    }

    /// A well-formed allocator manages `2^order` units, `order` at most 31.
    pub proof fn lemma_units(&self)
        requires
            self.wf(),
        ensures
            self.order() <= 31,
            self.used().len() == pow2(self.order()),
            1 <= self.used().len() <= 0x8000_0000,
    {
        lemma_pow2_bound(self.order as nat);
    }

    /// An allocator that manages no memory until `init`.
    pub fn new() -> (r: BuddyAllocator)
        ensures
            r.wf(),
            r.order() == 0,
            r.used() == seq![true],
    {
        let mut used: Vec<bool> = Vec::new();
        used.push(true);
        proof {
            lemma2_to64();
            assert(used@ =~= seq![true]);
        }
        BuddyAllocator { used, order: 0 }
    }

    /// Manages `2^max_order` units, all free.
    pub fn init(&mut self, max_order: u8)
        requires
            max_order <= 31,
        ensures
            final(self).wf(),
            final(self).order() == max_order,
            final(self).used().len() == pow2(max_order as nat),
            forall|u: int| 0 <= u < final(self).used().len() ==> !#[trigger] final(self).used()[u],
    {
        let units = units_of_order(max_order as usize);
        let mut used: Vec<bool> = Vec::new();
        let mut i: usize = 0;
        while i < units
            invariant
                i <= units,
                used@.len() == i,
                forall|u: int| 0 <= u < i ==> !#[trigger] used@[u],
            decreases units - i,
        {
            used.push(false);
            i = i + 1;
        }
        self.used = used;
        self.order = max_order as usize;
    }

    /// Takes the lowest free block of the size that serves `n` units and returns
    /// the index of its first unit; `None` when no such block is free.
    pub fn allocate(&mut self, n: usize) -> (r: Option<usize>)
        requires
            old(self).wf(),
        ensures
            final(self).wf(),
            final(self).order() == old(self).order(),
            allocation(old(self).used(), final(self).used(), n as nat, r),
    {
        let units = self.used.len();
        proof {
            lemma_pow2_bound(self.order as nat);
        }
        let p = match block_size(n, units) {
            Some(p) => p,
            None => {
                proof {
                    assert forall|q: nat, b: int|
                        is_block_size(q, n as nat) && b % (q as int) == 0 implies !block_free(
                        self.used@,
                        b,
                        q as int,
                    ) by {}
                }
                return None;
            },
        };
        let ghost old_used = self.used@;
        let mut b: usize = 0;
        while p <= units - b
            invariant
                units == self.used@.len(),
                self.used@ == old_used,
                old_used == old(self).used@,
                self.wf(),
                self.order == old(self).order,
                1 <= p <= units,
                is_block_size(p as nat, n as nat),
                units <= 0x8000_0000,
                b % p == 0,
                b <= units,
                forall|c: int| 0 <= c < b && c % (p as int) == 0 ==> !block_free(old_used, c, p as int),
            decreases units - b,
        {
            if self.range_free(b, p) {
                self.set_range(b, p, true);
                proof {
                    assert(self.used@ =~= mark(old_used, b as int, p as int, true));
                    assert(is_block_size(p as nat, n as nat));
                    assert(block_free(old_used, b as int, p as int));
                    assert((b as int) % (p as int) == 0);
                    assert(forall|c: int|
                        0 <= c < b && c % (p as int) == 0 ==> !block_free(old_used, c, p as int));
                }
                return Some(b);
            }
            proof {
                lemma_next_multiple(b as int, p as int);
            }
            b = b + p;
        }
        proof {
            assert forall|q: nat, c: int|
                is_block_size(q, n as nat) && c % (q as int) == 0 implies !block_free(
                old_used,
                c,
                q as int,
            ) by {
                lemma_block_size_unique(q, p as nat, n as nat);
            }
        }
        None
    }

    /// Frees the block of the size that serves `n` units starting at unit
    /// `index`.
    pub fn deallocate(&mut self, index: usize, n: usize)
        requires
            old(self).wf(),
            exists|p: nat|
                is_block_size(p, n as nat) && (index as int) % (p as int) == 0 && index + p
                    <= old(self).used().len(),
        ensures
            final(self).wf(),
            final(self).order() == old(self).order(),
            forall|p: nat|
                is_block_size(p, n as nat) ==> final(self).used() == mark(
                    old(self).used(),
                    index as int,
                    p as int,
                    false,
                ),
    {
        let units = self.used.len();
        proof {
            lemma_pow2_bound(self.order as nat);
        }
        let ghost q = choose|p: nat|
            is_block_size(p, n as nat) && (index as int) % (p as int) == 0 && index + p
                <= self.used@.len();
        let p = match block_size(n, units) {
            Some(p) => p,
            None => {
                proof {
                    assert(false);
                }
                return;
            },
        };
        proof {
            lemma_block_size_unique(q, p as nat, n as nat);
        }
        let ghost old_used = self.used@;
        self.set_range(index, p, false);
        proof {
            assert(self.used@ =~= mark(old_used, index as int, p as int, false));
            assert forall|p2: nat| is_block_size(p2, n as nat) implies self.used@ == mark(
                old_used,
                index as int,
                p2 as int,
                false,
            ) by {
                lemma_block_size_unique(p2, p as nat, n as nat);
            }
        }
    }

    fn range_free(&self, i: usize, p: usize) -> (r: bool)
        requires
            i + p <= self.used@.len(),
        ensures
            r == block_free(self.used@, i as int, p as int),
    {
        let len = self.used.len();
        let end = i + p;
        let mut u = i;
        while u < end
            invariant
                i <= u <= end,
                end == i + p,
                end <= self.used@.len(),
                forall|v: int| i <= v < u ==> !#[trigger] self.used@[v],
            decreases end - u,
        {
            if self.used[u] {
                return false;
            }
            u = u + 1;
        }
        true
    }

    fn set_range(&mut self, i: usize, p: usize, v: bool)
        requires
            i + p <= old(self).used@.len(),
        ensures
            final(self).used@ == mark(old(self).used@, i as int, p as int, v),
            final(self).order == old(self).order,
    {
        let ghost start = self.used@;
        let len = self.used.len();
        let end = i + p;
        let mut u = i;
        while u < end
            invariant
                i <= u <= end,
                end == i + p,
                end <= self.used@.len(),
                self.used@.len() == start.len(),
                self.order == old(self).order,
                forall|w: int|
                    0 <= w < start.len() ==> #[trigger] self.used@[w] == if i <= w < u {
                        v
                    } else {
                        start[w]
                    },
            decreases end - u,
        {
            self.used.set(u, v);
            u = u + 1;
        }
        assert(self.used@ =~= mark(start, i as int, p as int, v));
    }
}

/// `2^order`, for an order that fits a 32-bit address space.
fn units_of_order(order: usize) -> (r: usize)
    requires
        order <= 31,
    ensures
        r == pow2(order as nat),
{
    let mut r: usize = 1;
    let mut k: usize = 0;
    proof {
        lemma2_to64();
    }
    while k < order
        invariant
            k <= order <= 31,
            r == pow2(k as nat),
        decreases order - k,
    {
        proof {
            lemma_pow2_bound((k + 1) as nat);
            lemma_pow2_unfold((k + 1) as nat);
        }
        r = r * 2;
        k = k + 1;
    }
    r
}

/// The block size serving `n` units, if it is at most `units`.
fn block_size(n: usize, units: usize) -> (r: Option<usize>)
    requires
        units <= 0x8000_0000,
    ensures
        match r {
            Some(p) => is_block_size(p as nat, n as nat) && p <= units,
            None => forall|p: nat| is_block_size(p, n as nat) ==> p > units,
    },
{
    let mut p: usize = 1;
    while p < n
        invariant
            is_pow2(p as nat),
            p == 1 || p / 2 < n,
            1 <= p,
            units <= 0x8000_0000,
            p <= 0x1_0000_0000,
        decreases 0x1_0000_0000 - p,
    {
        if p >= units {
            return None;
        }
        proof {
            assert(is_pow2((p * 2) as nat)) by {
                assert((p * 2) as nat / 2 == p);
            }
        }
        p = p * 2;
    }
    if p > units {
        proof {
            assert forall|q: nat| is_block_size(q, n as nat) implies q > units by {
                lemma_block_size_unique(q, p as nat, n as nat);
            }
        }
        return None;
    }
    Some(p)
}

proof fn lemma_pow2_bound(k: nat)
    requires
        k <= 31,
    ensures
        1 <= pow2(k) <= 0x8000_0000,
        is_pow2(pow2(k)),
{
    lemma_pow2_facts(k);
    lemma2_to64();
    if k < 31 {
        lemma_pow2_strictly_increases(k, 31);
    }
}

proof fn lemma_pow2_facts(k: nat)
    ensures
        1 <= pow2(k),
        is_pow2(pow2(k)),
    decreases k,
{
    if k > 0 {
        lemma_pow2_facts((k - 1) as nat);
        lemma_pow2_unfold(k);
        assert(pow2(k) / 2 == pow2((k - 1) as nat));
    } else {
        lemma2_to64();
    }
}

/// Of two different powers of two, the larger is at least twice the smaller.
proof fn lemma_pow2_order(q: nat, p: nat)
    requires
        is_pow2(q),
        is_pow2(p),
        q < p,
    ensures
        2 * q <= p,
    decreases p,
{
    if q != 1 {
        lemma_pow2_order(q / 2, p / 2);
    } else {
        assert(p >= 2);
    }
}

/// Only one power of two serves a given request.
pub proof fn lemma_block_size_unique(q: nat, p: nat, n: nat)
    requires
        is_block_size(q, n),
        is_block_size(p, n),
    ensures
        q == p,
{
    if q < p {
        lemma_pow2_order(q, p);
    } else if p < q {
        lemma_pow2_order(p, q);
    }
}

proof fn lemma_next_multiple(b: int, p: int)
    requires
        p >= 1,
        b >= 0,
        b % p == 0,
    ensures
        (b + p) % p == 0,
        forall|c: int| b < c < b + p ==> #[trigger] (c % p) != 0,
{
    assert((b + p) % p == 0) by (nonlinear_arith)
        requires
            p >= 1,
            b % p == 0,
    ;
    assert forall|c: int| b < c < b + p implies #[trigger] (c % p) != 0 by {
        assert(c % p != 0) by (nonlinear_arith)
            requires
                p >= 1,
                b % p == 0,
                b < c < b + p,
        ;
    }
}

/// The floor of the base-2 logarithm of `x`.
pub fn log2_down(x: usize) -> (r: usize)
    requires
        x >= 1,
    ensures
        pow2(r as nat) <= x < 2 * pow2(r as nat),
{
    let mut r: usize = 0;
    let mut y = x;
    proof {
        lemma2_to64();
    }
    while y > 1
        invariant
            1 <= y <= x,
            r < pow2(r as nat),
            pow2(r as nat) * y <= x < pow2(r as nat) * (y + 1),
        decreases y,
    {
        proof {
            let p = pow2(r as nat);
            let np = pow2((r + 1) as nat);
            let y2 = y / 2;
            lemma_pow2_unfold((r + 1) as nat);
            assert(np == 2 * p);
            assert(np * y2 <= p * y) by (nonlinear_arith)
                requires
                    y2 == y / 2,
                    p >= 0,
                    np == 2 * p,
            ;
            assert(p * (y + 1) <= np * (y2 + 1)) by (nonlinear_arith)
                requires
                    y2 == y / 2,
                    p >= 0,
                    np == 2 * p,
            ;
            assert(p <= p * y) by (nonlinear_arith)
                requires
                    y >= 1,
                    p >= 0,
            ;
        }
        y = y / 2;
        r = r + 1;
    }
    assert(pow2(r as nat) * (y + 1) == 2 * pow2(r as nat)) by (nonlinear_arith)
        requires
            y == 1,
    ;
    r
}

/// Unit `u` lies in block `b` (first unit, size).
pub open spec fn in_block(b: (int, int), u: int) -> bool {
    b.0 <= u < b.0 + b.1
}

/// The units in use when the units of `base` are in use and so are those of
/// every block in `live`.
pub open spec fn covered(base: Seq<bool>, live: Seq<(int, int)>) -> Seq<bool> {
    Seq::new(
        base.len(),
        |u: int| base[u] || exists|k: int| 0 <= k < live.len() && #[trigger] in_block(live[k], u),
    )
}

/// No unit of a live block is in use in `base`, and no two live blocks share
/// a unit.
pub open spec fn blocks_disjoint(base: Seq<bool>, live: Seq<(int, int)>) -> bool {
    &&& forall|k: int, u: int|
        0 <= k < live.len() && #[trigger] in_block(live[k], u) && 0 <= u < base.len() ==> !base[u]
    &&& forall|k: int, j: int, u: int|
        #![trigger in_block(live[k], u), in_block(live[j], u)]
        0 <= k < live.len() && 0 <= j < live.len() && k != j && in_block(live[k], u)
            ==> !in_block(live[j], u)
}

/// Freeing a block right after it was allocated gives back the units in use
/// before: `allocate` took the free block `[i, i + p)` of `before`.
pub proof fn lemma_allocate_then_free(before: Seq<bool>, i: int, p: int)
    requires
        block_free(before, i, p),
    ensures
        mark(mark(before, i, p, true), i, p, false) == before,
{
    assert(mark(mark(before, i, p, true), i, p, false) =~= before);
}

/// With no block live, the units in use are those of `base`.
pub proof fn lemma_covered_none(base: Seq<bool>)
    ensures
        covered(base, Seq::empty()) == base,
{
    assert(covered(base, Seq::empty()) =~= base);
}

/// Allocation adds one live block. Start from units in use `used` that are
/// `base` plus the disjoint live blocks `live`; `allocate` takes the free
/// block `[i, i + p)` and marks it. The result is `base` plus `live` with the
/// new block appended, and the blocks stay disjoint.
pub proof fn lemma_allocate_adds_block(base: Seq<bool>, live: Seq<(int, int)>, i: int, p: int)
    requires
        blocks_disjoint(base, live),
        block_free(covered(base, live), i, p),
    ensures
        mark(covered(base, live), i, p, true) == covered(base, live.push((i, p))),
        blocks_disjoint(base, live.push((i, p))),
{
    let used = covered(base, live);
    let nl = live.push((i, p));
    assert forall|u: int| 0 <= u < base.len() implies #[trigger] mark(used, i, p, true)[u]
        == covered(base, nl)[u] by {
        if i <= u < i + p {
            assert(in_block(nl[live.len() as int], u));
        } else {
            if exists|k: int| 0 <= k < nl.len() && #[trigger] in_block(nl[k], u) {
                let k = choose|k: int| 0 <= k < nl.len() && #[trigger] in_block(nl[k], u);
                assert(k < live.len());
                assert(in_block(live[k], u));
            }
            if exists|k: int| 0 <= k < live.len() && #[trigger] in_block(live[k], u) {
                let k = choose|k: int| 0 <= k < live.len() && #[trigger] in_block(live[k], u);
                assert(nl[k] == live[k]);
            }
        }
    }
    assert(mark(used, i, p, true) =~= covered(base, nl));
    assert forall|k: int, u: int|
        0 <= k < nl.len() && #[trigger] in_block(nl[k], u) && 0 <= u < base.len() implies !base[u] by {
        if k == live.len() {
            assert(!used[u]);
        } else {
            assert(nl[k] == live[k]);
        }
    }
    assert forall|k: int, j: int, u: int|
        #![trigger in_block(nl[k], u), in_block(nl[j], u)]
        0 <= k < nl.len() && 0 <= j < nl.len() && k != j && in_block(nl[k], u) implies !in_block(nl[j], u) by {
        if k == live.len() {
            assert(nl[j] == live[j]);
            if in_block(live[j], u) {
                assert(used[u]);
            }
        } else if j == live.len() {
            assert(nl[k] == live[k]);
            if in_block(nl[j], u) {
                assert(used[u]);
            }
        } else {
            assert(nl[k] == live[k]);
            assert(nl[j] == live[j]);
        }
    }
}

/// Freeing a live block removes it. Start from units in use that are `base`
/// plus the disjoint live blocks `live`; `deallocate` frees `live[k]`. The
/// result is `base` plus the other live blocks. Freeing every live block, in
/// any order, so returns the units in use to `base`.
pub proof fn lemma_free_removes_block(base: Seq<bool>, live: Seq<(int, int)>, k: int)
    requires
        blocks_disjoint(base, live),
        0 <= k < live.len(),
    ensures
        mark(covered(base, live), live[k].0, live[k].1, false) == covered(base, live.remove(k)),
        blocks_disjoint(base, live.remove(k)),
{
    let used = covered(base, live);
    let b = live[k];
    let nl = live.remove(k);
    assert forall|u: int| 0 <= u < base.len() implies #[trigger] mark(used, b.0, b.1, false)[u]
        == covered(base, nl)[u] by {
        if in_block(b, u) {
            assert(!base[u]);
            if exists|j: int| 0 <= j < nl.len() && #[trigger] in_block(nl[j], u) {
                let j = choose|j: int| 0 <= j < nl.len() && #[trigger] in_block(nl[j], u);
                if j < k {
                    assert(nl[j] == live[j]);
                } else {
                    assert(nl[j] == live[j + 1]);
                }
            }
        } else {
            if exists|j: int| 0 <= j < nl.len() && #[trigger] in_block(nl[j], u) {
                let j = choose|j: int| 0 <= j < nl.len() && #[trigger] in_block(nl[j], u);
                if j < k {
                    assert(nl[j] == live[j]);
                } else {
                    assert(nl[j] == live[j + 1]);
                }
            }
            if exists|j: int| 0 <= j < live.len() && #[trigger] in_block(live[j], u) {
                let j = choose|j: int| 0 <= j < live.len() && #[trigger] in_block(live[j], u);
                assert(j != k);
                if j < k {
                    assert(nl[j] == live[j]);
                } else {
                    assert(nl[j - 1] == live[j]);
                }
            }
        }
    }
    assert(mark(used, b.0, b.1, false) =~= covered(base, nl));
    assert forall|j: int, u: int|
        0 <= j < nl.len() && #[trigger] in_block(nl[j], u) && 0 <= u < base.len() implies !base[u] by {
        if j < k {
            assert(nl[j] == live[j]);
        } else {
            assert(nl[j] == live[j + 1]);
        }
    }
    assert forall|j1: int, j2: int, u: int|
        #![trigger in_block(nl[j1], u), in_block(nl[j2], u)]
        0 <= j1 < nl.len() && 0 <= j2 < nl.len() && j1 != j2 && in_block(nl[j1], u) implies !in_block(nl[j2], u) by {
        let a = if j1 < k { j1 } else { j1 + 1 };
        let c = if j2 < k { j2 } else { j2 + 1 };
        assert(nl[j1] == live[a]);
        assert(nl[j2] == live[c]);
    }
}

/// The number of units not in use.
pub open spec fn count_free(used: Seq<bool>) -> nat
    decreases used.len(),
{
    if used.len() == 0 {
        0
    } else {
        count_free(used.drop_last()) + if used.last() {
            0nat
        } else {
            1nat
        }
    }
}

/// No unit is free exactly when the count of free units is zero.
pub proof fn lemma_count_free_zero(used: Seq<bool>)
    ensures
        count_free(used) == 0 <==> forall|u: int| 0 <= u < used.len() ==> #[trigger] used[u],
    decreases used.len(),
{
    if used.len() > 0 {
        let d = used.drop_last();
        lemma_count_free_zero(d);
        if count_free(used) == 0 {
            assert forall|u: int| 0 <= u < used.len() implies #[trigger] used[u] by {
                if u < used.len() - 1 {
                    assert(d[u] == used[u]);
                }
            }
        }
        if forall|u: int| 0 <= u < used.len() ==> #[trigger] used[u] {
            assert forall|u: int| 0 <= u < d.len() implies #[trigger] d[u] by {
                assert(used[u]);
            }
            assert(used[used.len() - 1]);
        }
    }
}

/// Taking one free unit lowers the count of free units by one.
pub proof fn lemma_count_free_take(used: Seq<bool>, i: int)
    requires
        0 <= i < used.len(),
        !used[i],
    ensures
        count_free(mark(used, i, 1, true)) + 1 == count_free(used),
    decreases used.len(),
{
    let m = mark(used, i, 1, true);
    let d = used.drop_last();
    if i == used.len() - 1 {
        assert(m.drop_last() =~= d);
    } else {
        lemma_count_free_take(d, i);
        assert(m.drop_last() =~= mark(d, i, 1, true));
    }
}

} // verus!
