//! Per-task virtual-memory regions.
//!
//! An address space is the collection of mapped regions owned by one task.
//! Regions are page-aligned, non-empty, pairwise disjoint ranges with a
//! permission set. `map` validates and inserts a region; `unmap` removes the
//! regions that exactly tile a range. Physical-frame allocation and page-table
//! edits are the embedding's concern; the core only decides validity and
//! tracks what is mapped.

use vstd::prelude::*;

verus! {

use crate::PAGE_SIZE;

/// A contiguous virtual range `[start, end)` with permission bits `perm`
/// (bit 0 read, bit 1 write, bit 2 execute; user access is implicit).
#[derive(Clone, Copy, Debug, PartialEq, Eq, Structural)]
pub struct MemRegion {
    pub start: usize,
    pub end: usize,
    pub perm: usize,
}

/// Permission bits are valid when at least one of read/write/execute is set
/// and no bit outside that set is.
pub open spec fn valid_perm(port: usize) -> bool {
    1 <= port <= 7
}

/// A region is non-empty, page-aligned at both bounds, and carries valid
/// permission bits.
pub open spec fn region_wf(r: MemRegion) -> bool {
    &&& r.start < r.end
    &&& r.start as int % PAGE_SIZE as int == 0
    &&& r.end as int % PAGE_SIZE as int == 0
    &&& valid_perm(r.perm)
}

/// Two regions occupy disjoint address ranges.
pub open spec fn region_disjoint(a: MemRegion, b: MemRegion) -> bool {
    a.end <= b.start || b.end <= a.start
}

/// Every region is well formed and no two regions overlap.
pub open spec fn regions_wf(rs: Seq<MemRegion>) -> bool {
    &&& forall|i: int| 0 <= i < rs.len() ==> region_wf(#[trigger] rs[i])
    &&& forall|i: int, j: int|
        0 <= i < rs.len() && 0 <= j < rs.len() && i != j ==> region_disjoint(
            #[trigger] rs[i],
            #[trigger] rs[j],
        )
}

/// The region intersects the half-open range `[lo, hi)`.
pub open spec fn region_intersects(r: MemRegion, lo: int, hi: int) -> bool {
    r.start < hi && lo < r.end
}

/// Some region of `rs` intersects `[lo, hi)`.
pub open spec fn range_overlaps(rs: Seq<MemRegion>, lo: int, hi: int) -> bool {
    exists|i: int| 0 <= i < rs.len() && region_intersects(#[trigger] rs[i], lo, hi)
}

/// `[lo, hi)` is exactly tiled by whole regions of `rs`: a region starts at
/// `lo`, ends inside the range, and the rest of the range is tiled in turn.
pub open spec fn covers(rs: Seq<MemRegion>, lo: int, hi: int) -> bool
    decreases hi - lo,
{
    lo >= hi || exists|i: int|
        0 <= i < rs.len() && (#[trigger] rs[i]).start == lo && rs[i].start < rs[i].end
            && rs[i].end <= hi && covers(rs, rs[i].end as int, hi)
}

/// The regions of `rs` that lie entirely inside `[lo, hi)` are dropped;
/// the rest keep their order.
pub open spec fn remove_range(rs: Seq<MemRegion>, lo: int, hi: int) -> Seq<MemRegion>
    decreases rs.len(),
{
    if rs.len() == 0 {
        Seq::empty()
    } else if lo <= rs[0].start && rs[0].end <= hi {
        remove_range(rs.drop_first(), lo, hi)
    } else {
        seq![rs[0]] + remove_range(rs.drop_first(), lo, hi)
    }
}

/// `x` rounded up to the next multiple of the page size.
pub open spec fn spec_round_up(x: int) -> int {
    if x % (PAGE_SIZE as int) == 0 {
        x
    } else {
        x - x % (PAGE_SIZE as int) + PAGE_SIZE
    }
}

/// Validation outcomes of the region manager, in the order the checks run.
#[derive(Clone, Copy, Debug, PartialEq, Eq, Structural)]
pub enum MapError {
    /// A bound of the requested range is not page-aligned.
    InvalidAlignment,
    /// The permission bits are zero or carry a bit outside read/write/execute.
    InvalidPermission,
    /// The requested range intersects an existing region.
    Overlap,
    /// The range to unmap is not exactly tiled by existing regions.
    NotMapped,
}

/// What `map` does, as a function of the current regions and the request:
/// either the regions afterwards or the error, checks in this order.
/// A zero-length request passes the checks and maps nothing.
pub open spec fn spec_map(rs: Seq<MemRegion>, start: int, len: int, port: usize) -> Result<
    Seq<MemRegion>,
    MapError,
> {
    if start % (PAGE_SIZE as int) != 0 {
        Err(MapError::InvalidAlignment)
    } else if !valid_perm(port) {
        Err(MapError::InvalidPermission)
    } else if range_overlaps(rs, start, start + len) {
        Err(MapError::Overlap)
    } else if len == 0 {
        Ok(rs)
    } else {
        Ok(
            rs.push(
                MemRegion {
                    start: start as usize,
                    end: spec_round_up(start + len) as usize,
                    perm: port,
                },
            ),
        )
    }
}

/// What `unmap` does: alignment of both bounds, then exact coverage.
pub open spec fn spec_unmap(rs: Seq<MemRegion>, start: int, len: int) -> Result<
    Seq<MemRegion>,
    MapError,
> {
    if start % (PAGE_SIZE as int) != 0 || (start + len) % (PAGE_SIZE as int) != 0 {
        Err(MapError::InvalidAlignment)
    } else if !covers(rs, start, start + len) {
        Err(MapError::NotMapped)
    } else {
        Ok(remove_range(rs, start, start + len))
    }
}

/// An aligned address at or above `x` is at or above `x` rounded up.
proof fn lemma_aligned_at_least_round_up(y: int, x: int)
    requires
        y % (PAGE_SIZE as int) == 0,
        y >= x,
    ensures
        y >= spec_round_up(x),
{
    let p = PAGE_SIZE as int;
    if x % p != 0 {
        vstd::arithmetic::div_mod::lemma_fundamental_div_mod(x, p);
        vstd::arithmetic::div_mod::lemma_fundamental_div_mod(y, p);
        let xq = x / p;
        let yq = y / p;
        assert(x == p * xq + x % p);
        assert(y == p * yq);
        assert(spec_round_up(x) == p * xq + p);
        if yq <= xq {
            vstd::arithmetic::mul::lemma_mul_inequality(yq, xq, p);
            assert(yq * p <= xq * p);
            vstd::arithmetic::mul::lemma_mul_is_commutative(yq, p);
            vstd::arithmetic::mul::lemma_mul_is_commutative(xq, p);
            assert(y <= p * xq);
            vstd::arithmetic::div_mod::lemma_mod_bound(x, p);
            assert(false);
        }
        vstd::arithmetic::mul::lemma_mul_inequality(xq + 1, yq, p);
        vstd::arithmetic::mul::lemma_mul_is_commutative(xq + 1, p);
        vstd::arithmetic::mul::lemma_mul_is_commutative(yq, p);
        vstd::arithmetic::mul::lemma_mul_is_distributive_add(p, xq, 1);
    }
}

/// Round up to the page boundary.
fn page_round_up(x: usize) -> (r: usize)
    requires
        x + PAGE_SIZE <= usize::MAX,
    ensures
        r as int % PAGE_SIZE as int == 0,
        x <= r < x + PAGE_SIZE,
        r == spec_round_up(x as int),
{
    let rem = x % PAGE_SIZE;
    if rem == 0 {
        x
    } else {
        proof {
            let p = PAGE_SIZE as int;
            vstd::arithmetic::div_mod::lemma_fundamental_div_mod(x as int, p);
            assert(x as int - rem == p * (x as int / p));
            vstd::arithmetic::div_mod::lemma_mod_multiples_basic(x as int / p + 1, p);
            vstd::arithmetic::mul::lemma_mul_is_distributive_add(p, x as int / p, 1);
            assert((p * (x as int / p) + p) % p == 0);
        }
        x - rem + PAGE_SIZE
    }
}

/// The collection of regions mapped by one task, in insertion order.
pub struct AddressSpace {
    pub regions: Vec<MemRegion>,
}

impl AddressSpace {
    /// The address-space invariant: see [`regions_wf`].
    pub open spec fn wf(self) -> bool {
        regions_wf(self.regions@)
    }

    /// A fresh address space with nothing mapped.
    pub fn new() -> (r: AddressSpace)
        ensures
            r.wf(),
            r.regions@ == Seq::<MemRegion>::empty(),
    {
        AddressSpace { regions: Vec::new() }
    }

    /// Maps `[start, start + len)`, rounded up to whole pages, with permission
    /// bits `port`. Fails if `start` is misaligned, the permission bits are
    /// invalid, or the range intersects an existing region; a failure leaves
    /// the space unchanged.
    pub fn map(&mut self, start: usize, len: usize, port: usize) -> (r: Result<(), MapError>)
        requires
            old(self).wf(),
            start + len + PAGE_SIZE <= usize::MAX,
        ensures
            final(self).wf(),
            (match spec_map(old(self).regions@, start as int, len as int, port) {
                Ok(rs) => r is Ok && final(self).regions@ == rs,
                Err(e) => r == Err::<(), MapError>(e) && final(self).regions@ == old(
                    self,
                ).regions@,
            }),
    {
        if start % PAGE_SIZE != 0 {
            return Err(MapError::InvalidAlignment);
        }
        if port < 1 || port > 7 {
            return Err(MapError::InvalidPermission);
        }
        let end = page_round_up(start + len);
        let ghost lo = start as int;
        let ghost hi = start as int + len as int;
        let n = self.regions.len();
        let mut i: usize = 0;
        while i < n
            invariant
                self == old(self),
                n == self.regions@.len(),
                0 <= i <= n,
                self.wf(),
                lo == start as int,
                hi == start as int + len as int,
                valid_perm(port),
                end == spec_round_up(start as int + len as int),
                start as int % PAGE_SIZE as int == 0,
                start <= end <= start + len + PAGE_SIZE,
                forall|j: int|
                    0 <= j < i ==> !region_intersects(
                        #[trigger] self.regions@[j],
                        start as int,
                        end as int,
                    ),
            decreases n - i,
        {
            let reg = self.regions[i];
            if reg.start < end && start < reg.end {
                proof {
                    // The rounded range intersects this region, so the exact
                    // requested range does too: the region's aligned start
                    // cannot fall strictly between `start + len` and `end`.
                    assert(reg == self.regions@[i as int]);
                    assert(region_wf(reg));
                    if reg.start as int >= hi {
                        lemma_aligned_at_least_round_up(reg.start as int, hi);
                        assert(false);
                    }
                    assert(region_intersects(reg, lo, hi));
                    assert(range_overlaps(old(self).regions@, lo, hi));
                }
                return Err(MapError::Overlap);
            }
            i += 1;
        }
        proof {
            // No region intersects the rounded range, hence none intersects
            // the requested range inside it.
            assert forall|j: int| 0 <= j < n implies !region_intersects(
                #[trigger] self.regions@[j],
                lo,
                hi,
            ) by {
                assert(!region_intersects(self.regions@[j], start as int, end as int));
            }
            assert(!range_overlaps(old(self).regions@, lo, hi));
        }
        if len == 0 {
            return Ok(());
        }
        let reg = MemRegion { start, end, perm: port };
        proof {
            assert(region_wf(reg));
            assert forall|j: int| 0 <= j < n implies region_disjoint(
                #[trigger] self.regions@[j],
                reg,
            ) by {
                assert(!region_intersects(self.regions@[j], start as int, end as int));
            }
        }
        self.regions.push(reg);
        proof {
            let rs = final(self).regions@;
            assert forall|a: int, b: int|
                0 <= a < rs.len() && 0 <= b < rs.len() && a != b implies region_disjoint(
                #[trigger] rs[a],
                #[trigger] rs[b],
            ) by {
                if a < n && b < n {
                } else if a == n as int {
                    assert(region_disjoint(rs[b], reg));
                } else {
                    assert(region_disjoint(rs[a], reg));
                }
            }
        }
        Ok(())
    }

    /// The index of the region starting at `addr`, if any.
    fn find_region_at(&self, addr: usize) -> (r: Option<usize>)
        ensures
            (match r {
                Some(j) => j < self.regions@.len() && self.regions@[j as int].start == addr,
                None => forall|j: int|
                    0 <= j < self.regions@.len() ==> (#[trigger] self.regions@[j]).start != addr,
            }),
    {
        let n = self.regions.len();
        let mut i: usize = 0;
        while i < n
            invariant
                n == self.regions@.len(),
                0 <= i <= n,
                forall|j: int| 0 <= j < i ==> (#[trigger] self.regions@[j]).start != addr,
            decreases n - i,
        {
            if self.regions[i].start == addr {
                return Some(i);
            }
            i += 1;
        }
        None
    }

    /// Unmaps `[start, start + len)`. Fails if a bound is misaligned or the
    /// range is not exactly tiled by existing regions; a failure leaves the
    /// space unchanged. The tiling regions are removed whole.
    pub fn unmap(&mut self, start: usize, len: usize) -> (r: Result<(), MapError>)
        requires
            old(self).wf(),
            start + len <= usize::MAX,
        ensures
            final(self).wf(),
            (match spec_unmap(old(self).regions@, start as int, len as int) {
                Ok(rs) => r is Ok && final(self).regions@ == rs,
                Err(e) => r == Err::<(), MapError>(e) && final(self).regions@ == old(
                    self,
                ).regions@,
            }),
    {
        if start % PAGE_SIZE != 0 || (start + len) % PAGE_SIZE != 0 {
            return Err(MapError::InvalidAlignment);
        }
        let end = start + len;
        let ghost rs = self.regions@;
        let ghost hi = end as int;
        let mut cursor = start;
        while cursor < end
            invariant
                self == old(self),
                rs == self.regions@,
                self.wf(),
                hi == end as int,
                end == start + len,
                start <= cursor <= end,
                start as int % PAGE_SIZE as int == 0,
                (start as int + len as int) % PAGE_SIZE as int == 0,
                covers(rs, cursor as int, hi) == covers(rs, start as int, hi),
            decreases end - cursor,
        {
            match self.find_region_at(cursor) {
                None => {
                    proof {
                        // Coverage at `cursor` would need a region starting
                        // there, and none does.
                        assert(!covers(rs, cursor as int, hi));
                    }
                    return Err(MapError::NotMapped);
                },
                Some(j) => {
                    let rend = self.regions[j].end;
                    proof {
                        assert(region_wf(rs[j as int]));
                    }
                    if rend > end {
                        proof {
                            // Only one region starts at `cursor`, and it
                            // reaches past the range.
                            if covers(rs, cursor as int, hi) {
                                let w = choose|w: int|
                                    0 <= w < rs.len() && (#[trigger] rs[w]).start == cursor as int
                                        && rs[w].start < rs[w].end && rs[w].end <= hi && covers(
                                        rs,
                                        rs[w].end as int,
                                        hi,
                                    );
                                lemma_unique_start(rs, w, j as int);
                                assert(false);
                            }
                        }
                        return Err(MapError::NotMapped);
                    }
                    proof {
                        // The walk may consume exactly this region: coverage
                        // from `cursor` and from its end are equivalent.
                        if covers(rs, rend as int, hi) {
                            assert(covers(rs, cursor as int, hi));
                        }
                        if covers(rs, cursor as int, hi) {
                            let w = choose|w: int|
                                0 <= w < rs.len() && (#[trigger] rs[w]).start == cursor as int
                                    && rs[w].start < rs[w].end && rs[w].end <= hi && covers(
                                    rs,
                                    rs[w].end as int,
                                    hi,
                                );
                            lemma_unique_start(rs, w, j as int);
                            assert(covers(rs, rend as int, hi));
                        }
                    }
                    cursor = rend;
                },
            }
        }
        proof {
            assert(covers(rs, cursor as int, hi));
            assert(covers(rs, start as int, start as int + len as int));
        }
        let n = self.regions.len();
        let mut kept: Vec<MemRegion> = Vec::new();
        let mut i: usize = 0;
        while i < n
            invariant
                self == old(self),
                rs == self.regions@,
                n == rs.len(),
                self.wf(),
                end == start + len,
                0 <= i <= n,
                kept@ == remove_range(rs.take(i as int), start as int, end as int),
            decreases n - i,
        {
            let r0 = self.regions[i];
            proof {
                assert(rs.take(i as int + 1) =~= rs.take(i as int).push(rs[i as int]));
                lemma_remove_range_push(
                    rs.take(i as int),
                    rs[i as int],
                    start as int,
                    end as int,
                );
            }
            if !(start <= r0.start && r0.end <= end) {
                kept.push(r0);
            }
            i += 1;
        }
        proof {
            assert(rs.take(n as int) =~= rs);
            lemma_remove_range_wf(rs, start as int, end as int);
        }
        self.regions = kept;
        Ok(())
    }
}

/// Rounding up never rounds down.
proof fn lemma_round_up_at_least(x: int)
    ensures
        x <= spec_round_up(x) < x + PAGE_SIZE,
        spec_round_up(x) % (PAGE_SIZE as int) == 0,
{
    let p = PAGE_SIZE as int;
    vstd::arithmetic::div_mod::lemma_mod_bound(x, p);
    if x % p != 0 {
        vstd::arithmetic::div_mod::lemma_fundamental_div_mod(x, p);
        vstd::arithmetic::div_mod::lemma_mod_multiples_basic(x / p + 1, p);
        vstd::arithmetic::mul::lemma_mul_is_distributive_add(p, x / p, 1);
    }
}

/// Removing a range that no region lies inside removes nothing.
proof fn lemma_remove_range_none_inside(s: Seq<MemRegion>, lo: int, hi: int)
    requires
        forall|i: int| 0 <= i < s.len() ==> !(lo <= (#[trigger] s[i]).start && s[i].end <= hi),
    ensures
        remove_range(s, lo, hi) == s,
    decreases s.len(),
{
    if s.len() > 0 {
        let rest = s.drop_first();
        assert(forall|i: int| 0 <= i < rest.len() ==> rest[i] == s[i + 1]);
        lemma_remove_range_none_inside(rest, lo, hi);
        assert(seq![s[0]] + rest =~= s);
    }
}

/// Law: a `map` of a range that overlaps an already mapped range fails with
/// `Overlap`; by `map`'s contract the failing call leaves the address space
/// unchanged.
pub proof fn lemma_map_overlap_rejected(
    rs: Seq<MemRegion>,
    rs1: Seq<MemRegion>,
    s1: int,
    l1: int,
    p1: usize,
    s2: int,
    l2: int,
    p2: usize,
)
    requires
        spec_map(rs, s1, l1, p1) == Ok::<Seq<MemRegion>, MapError>(rs1),
        0 <= s1,
        l1 > 0,
        s1 + l1 + PAGE_SIZE <= usize::MAX,
        s2 % (PAGE_SIZE as int) == 0,
        valid_perm(p2),
        s2 < s1 + l1,
        s1 < s2 + l2,
    ensures
        spec_map(rs1, s2, l2, p2) == Err::<Seq<MemRegion>, MapError>(MapError::Overlap),
{
    let r1 = MemRegion {
        start: s1 as usize,
        end: spec_round_up(s1 + l1) as usize,
        perm: p1,
    };
    assert(rs1 == rs.push(r1));
    lemma_round_up_at_least(s1 + l1);
    let w = rs.len() as int;
    assert(rs1[w] == r1);
    assert(region_intersects(rs1[w], s2, s2 + l2));
    assert(range_overlaps(rs1, s2, s2 + l2));
}

/// Law: `map(start, len, perm)` then `unmap(start, len)` restores the prior
/// regions exactly, and a second `unmap(start, len)` then fails with
/// `NotMapped`.
pub proof fn lemma_map_unmap_round_trip(
    rs: Seq<MemRegion>,
    rs1: Seq<MemRegion>,
    s: int,
    l: int,
    p: usize,
)
    requires
        regions_wf(rs),
        0 <= s,
        l > 0,
        s + l <= usize::MAX,
        (s + l) % (PAGE_SIZE as int) == 0,
        spec_map(rs, s, l, p) == Ok::<Seq<MemRegion>, MapError>(rs1),
    ensures
        spec_unmap(rs1, s, l) == Ok::<Seq<MemRegion>, MapError>(rs),
        spec_unmap(rs, s, l) == Err::<Seq<MemRegion>, MapError>(MapError::NotMapped),
{
    assert(s % (PAGE_SIZE as int) == 0);
    assert(spec_round_up(s + l) == s + l);
    let r1 = MemRegion { start: s as usize, end: (s + l) as usize, perm: p };
    assert(rs1 == rs.push(r1));
    let w = rs.len() as int;
    assert(rs1[w] == r1);
    assert(covers(rs1, s + l, s + l));
    assert(covers(rs1, s, s + l));
    lemma_remove_range_push(rs, r1, s, s + l);
    assert(forall|i: int|
        0 <= i < rs.len() ==> !region_intersects(#[trigger] rs[i], s, s + l));
    assert forall|i: int|
        0 <= i < rs.len() implies !(s <= (#[trigger] rs[i]).start && rs[i].end <= s + l) by {
        assert(region_wf(rs[i]));
        assert(!region_intersects(rs[i], s, s + l));
    }
    lemma_remove_range_none_inside(rs, s, s + l);
    if covers(rs, s, s + l) {
        let v = choose|v: int|
            0 <= v < rs.len() && (#[trigger] rs[v]).start == s && rs[v].start < rs[v].end
                && rs[v].end <= s + l && covers(rs, rs[v].end as int, s + l);
        assert(region_intersects(rs[v], s, s + l));
        assert(false);
    }
}

/// Distinct well-formed, pairwise-disjoint regions have distinct starts.
proof fn lemma_unique_start(s: Seq<MemRegion>, i: int, j: int)
    requires
        regions_wf(s),
        0 <= i < s.len(),
        0 <= j < s.len(),
        s[i].start == s[j].start,
    ensures
        i == j,
{
    if i != j {
        assert(region_wf(s[i]));
        assert(region_wf(s[j]));
        assert(region_disjoint(s[i], s[j]));
    }
}

/// Appending a region and removing a range commute in the expected way.
proof fn lemma_remove_range_push(s: Seq<MemRegion>, x: MemRegion, lo: int, hi: int)
    ensures
        remove_range(s.push(x), lo, hi) == if lo <= x.start && x.end <= hi {
            remove_range(s, lo, hi)
        } else {
            remove_range(s, lo, hi).push(x)
        },
    decreases s.len(),
{
    let sx = s.push(x);
    assert(sx.len() == s.len() + 1);
    if s.len() == 0 {
        assert(sx[0] == x);
        assert(sx.drop_first() =~= Seq::<MemRegion>::empty());
        assert(remove_range(sx.drop_first(), lo, hi) == Seq::<MemRegion>::empty());
        assert(remove_range(s, lo, hi) == Seq::<MemRegion>::empty());
        if lo <= x.start && x.end <= hi {
            assert(remove_range(sx, lo, hi) == remove_range(sx.drop_first(), lo, hi));
        } else {
            assert(remove_range(sx, lo, hi) == seq![x] + remove_range(sx.drop_first(), lo, hi));
            assert(seq![x] + Seq::<MemRegion>::empty() =~= Seq::<MemRegion>::empty().push(x));
        }
    } else {
        assert(sx[0] == s[0]);
        assert(sx.drop_first() =~= s.drop_first().push(x));
        lemma_remove_range_push(s.drop_first(), x, lo, hi);
        let rd = remove_range(s.drop_first(), lo, hi);
        if lo <= s[0].start && s[0].end <= hi {
            assert(remove_range(sx, lo, hi) == remove_range(s.drop_first().push(x), lo, hi));
            assert(remove_range(s, lo, hi) == rd);
        } else {
            assert(remove_range(sx, lo, hi) == seq![s[0]] + remove_range(
                s.drop_first().push(x),
                lo,
                hi,
            ));
            assert(remove_range(s, lo, hi) == seq![s[0]] + rd);
            if lo <= x.start && x.end <= hi {
            } else {
                assert(seq![s[0]] + rd.push(x) =~= (seq![s[0]] + rd).push(x));
            }
        }
    }
}

/// Removing a range keeps the remaining regions well formed and disjoint,
/// and every survivor was already present.
proof fn lemma_remove_range_wf(s: Seq<MemRegion>, lo: int, hi: int)
    requires
        regions_wf(s),
    ensures
        regions_wf(remove_range(s, lo, hi)),
        forall|k: int|
            0 <= k < remove_range(s, lo, hi).len() ==> s.contains(
                #[trigger] remove_range(s, lo, hi)[k],
            ),
    decreases s.len(),
{
    let rr = remove_range(s, lo, hi);
    if s.len() == 0 {
    } else {
        let rest = s.drop_first();
        assert(regions_wf(rest)) by {
            assert(forall|i: int| 0 <= i < rest.len() ==> rest[i] == s[i + 1]);
        }
        lemma_remove_range_wf(rest, lo, hi);
        let rrest = remove_range(rest, lo, hi);
        assert(forall|k: int| 0 <= k < rrest.len() ==> rest.contains(#[trigger] rrest[k]));
        assert forall|k: int| 0 <= k < rrest.len() implies s.contains(#[trigger] rrest[k]) by {
            let m = choose|m: int| 0 <= m < rest.len() && rest[m] == rrest[k];
            assert(s[m + 1] == rrest[k]);
        }
        if lo <= s[0].start && s[0].end <= hi {
        } else {
            assert(rr == seq![s[0]] + rrest);
            assert(rr[0] == s[0]);
            assert(forall|k: int| 1 <= k < rr.len() ==> rr[k] == rrest[k - 1]);
            assert forall|a: int, b: int|
                0 <= a < rr.len() && 0 <= b < rr.len() && a != b implies region_disjoint(
                #[trigger] rr[a],
                #[trigger] rr[b],
            ) by {
                if a == 0 || b == 0 {
                    let k = if a == 0 {
                        b
                    } else {
                        a
                    };
                    let m = choose|m: int| 0 <= m < rest.len() && rest[m] == rrest[k - 1];
                    assert(region_disjoint(s[0], s[m + 1]));
                } else {
                    assert(region_disjoint(rrest[a - 1], rrest[b - 1]));
                }
            }
            assert forall|k: int| 0 <= k < rr.len() implies region_wf(#[trigger] rr[k]) by {
                if k == 0 {
                    assert(region_wf(s[0]));
                } else {
                    assert(region_wf(rrest[k - 1]));
                }
            }
        }
    }
}

} // verus!
