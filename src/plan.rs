//! Cutting an object into the parts of a multipart upload.
use vstd::prelude::*;

verus! {

/// The bytes `[start, end)` of the object, uploaded as part `part_number`.
#[derive(Clone, Copy, Debug, PartialEq, Eq, Structural)]
pub struct PartRange {
    pub part_number: u64,
    pub start: u64,
    pub end: u64,
}

/// How an object is cut into parts.
#[derive(Clone, Debug)]
pub struct UploadPlan {
    pub part_size: u64,
    pub parts: Vec<PartRange>,
}

/// The number of parts of an object of `total` bytes: one for each
/// started `part_size` bytes, and one for an empty object.
pub open spec fn part_count(total: int, part_size: int) -> int {
    if total == 0 {
        1
    } else {
        (total - 1) / part_size + 1
    }
}

/// Where the part with index `i` starts.
pub open spec fn part_start(i: int, part_size: int) -> int {
    i * part_size
}

/// Where the part with index `i` ends: a full part later, or at the end
/// of the object.
pub open spec fn part_end(i: int, total: int, part_size: int) -> int {
    if (i + 1) * part_size < total {
        (i + 1) * part_size
    } else {
        total
    }
}

/// The part with index `i` (part number `i + 1`).
pub open spec fn planned_part(i: int, total: int, part_size: int) -> PartRange {
    PartRange {
        part_number: (i + 1) as u64,
        start: part_start(i, part_size) as u64,
        end: part_end(i, total, part_size) as u64,
    }
}

proof fn lemma_count_bounds(total: int, part_size: int)
    requires
        0 < total,
        0 < part_size,
    ensures
        (part_count(total, part_size) - 1) * part_size < total,
        total <= part_count(total, part_size) * part_size,
        part_count(total, part_size) <= total,
{
    let q = (total - 1) / part_size;
    let r = (total - 1) % part_size;
    vstd::arithmetic::div_mod::lemma_fundamental_div_mod(total - 1, part_size);
    assert(0 <= r < part_size);
    assert(q * part_size + r == total - 1);
    assert((q + 1) * part_size == q * part_size + part_size) by (nonlinear_arith);
    assert(q <= total - 1) by (nonlinear_arith)
        requires
            q * part_size + r == total - 1,
            0 <= r,
            1 <= part_size,
            0 <= q,
    ;
}

proof fn lemma_start_below_total(total: int, part_size: int, i: int)
    requires
        0 < total,
        0 < part_size,
        0 <= i < part_count(total, part_size),
    ensures
        i * part_size < total,
        i * part_size <= (part_count(total, part_size) - 1) * part_size,
        i + 1 < part_count(total, part_size) ==> (i + 1) * part_size < total,
{
    let n = part_count(total, part_size);
    lemma_count_bounds(total, part_size);
    assert(i * part_size <= (n - 1) * part_size) by (nonlinear_arith)
        requires
            i <= n - 1,
            0 < part_size,
    ;
    if i + 1 < n {
        assert((i + 1) * part_size <= (n - 1) * part_size) by (nonlinear_arith)
            requires
                i + 1 <= n - 1,
                0 < part_size,
        ;
    }
}

/// The plan covers the object: the parts follow each other from byte 0 to
/// the last byte with no gap and no overlap; there are as many as the
/// object has started `part_size` bytes (one for an empty object); every
/// part but the last has `part_size` bytes and the last one holds the rest.
pub proof fn lemma_plan_covers_object(total: int, part_size: int)
    requires
        0 <= total,
        0 < part_size,
    ensures
        ({
            let n = part_count(total, part_size);
            &&& n >= 1
            &&& part_start(0, part_size) == 0
            &&& part_end(n - 1, total, part_size) == total
            &&& forall|i: int|
                0 <= i < n - 1 ==> part_end(i, total, part_size) == part_start(i + 1, part_size)
            &&& forall|i: int|
                0 <= i < n - 1 ==> part_end(i, total, part_size) - part_start(i, part_size)
                    == part_size
            &&& forall|i: int|
                0 <= i < n ==> part_start(i, part_size) < part_end(i, total, part_size) || total
                    == 0
            &&& part_end(n - 1, total, part_size) - part_start(n - 1, part_size) == total - (n
                - 1) * part_size
            &&& total > 0 ==> (n - 1) * part_size < total <= n * part_size
        }),
{
    let n = part_count(total, part_size);
    assert(part_start(0, part_size) == 0);
    if total > 0 {
        lemma_count_bounds(total, part_size);
        assert forall|i: int| 0 <= i < n - 1 implies part_end(i, total, part_size) == part_start(
            i + 1,
            part_size,
        ) && part_end(i, total, part_size) - part_start(i, part_size) == part_size by {
            lemma_start_below_total(total, part_size, i);
            assert((i + 1) * part_size == i * part_size + part_size) by (nonlinear_arith);
        }
        assert forall|i: int| 0 <= i < n implies part_start(i, part_size) < part_end(
            i,
            total,
            part_size,
        ) by {
            lemma_start_below_total(total, part_size, i);
            assert((i + 1) * part_size == i * part_size + part_size) by (nonlinear_arith);
        }
    }
}

/// Cuts an object of `total_size` bytes into parts of `part_size` bytes,
/// the last part holding the rest.
pub fn plan(total_size: u64, part_size: u64) -> (p: UploadPlan)
    requires
        part_size > 0,
    ensures
        p.part_size == part_size,
        p.parts@.len() == part_count(total_size as int, part_size as int),
        forall|i: int|
            0 <= i < p.parts@.len() ==> p.parts@[i] == planned_part(
                i,
                total_size as int,
                part_size as int,
            ),
{
    let ghost total = total_size as int;
    let ghost ps = part_size as int;
    let count: u64 = if total_size == 0 {
        1
    } else {
        proof {
            lemma_count_bounds(total, ps);
        }
        (total_size - 1) / part_size + 1
    };
    let mut parts: Vec<PartRange> = Vec::new();
    let mut i: u64 = 0;
    while i < count
        invariant
            part_size == ps,
            total_size == total,
            ps > 0,
            count == part_count(total, ps),
            i <= count,
            parts@.len() == i,
            forall|j: int| 0 <= j < i ==> parts@[j] == planned_part(j, total, ps),
        decreases count - i,
    {
        let start: u64 = if total_size == 0 {
            0
        } else {
            proof {
                lemma_start_below_total(total, ps, i as int);
            }
            i * part_size
        };
        assert(start as int == part_start(i as int, ps)) by (nonlinear_arith)
            requires
                total_size == 0 ==> i == 0 && start == 0,
                total_size != 0 ==> start == i * ps,
        ;
        assert((i + 1) * ps == i * ps + ps) by (nonlinear_arith);
        let end: u64 = if total_size - start > part_size {
            start + part_size
        } else {
            total_size
        };
        assert(end as int == part_end(i as int, total, ps));
        let ghost before = parts@;
        parts.push(PartRange { part_number: i + 1, start, end });
        assert(parts@ == before.push(planned_part(i as int, total, ps)));
        i = i + 1;
    }
    UploadPlan { part_size, parts }
}

} // verus!
