//! What a caller obtains by driving an iterator against the service: each
//! operation called again after every fetched page until it is ready.
//!
//! The service is modelled by the pages it will still answer with, in
//! order; every page but the last carries a continuation token.
use vstd::prelude::*;

use crate::iter::{
    count_step, emptied, fresh_cursor, last_step, next_step, nth_step, receive_page, Cursor,
    ObjectRecord, Step,
};

verus! {

/// The records that are still to be handed out: those of the current page,
/// then those of the pages to come.
pub open spec fn remaining(c: Cursor, pages: Seq<Seq<ObjectRecord>>) -> Seq<ObjectRecord> {
    c.buffered + pages.flatten()
}

/// The cursor asks for another page exactly while the service has one.
pub open spec fn agrees(c: Cursor, pages: Seq<Seq<ObjectRecord>>) -> bool {
    c.exhausted <==> pages.len() == 0
}

/// The cursor after it took in the first of `pages`.
pub open spec fn fetch_first(c: Cursor, pages: Seq<Seq<ObjectRecord>>) -> Cursor
    recommends
        pages.len() > 0,
{
    receive_page(c, pages[0], pages.len() > 1)
}

/// The `i`-th record of `s`, or `None` past its end.
pub open spec fn record_at(s: Seq<ObjectRecord>, i: int) -> Option<ObjectRecord> {
    if 0 <= i < s.len() {
        Some(s[i])
    } else {
        None
    }
}

/// What `k` calls of `next` on `s` yield.
pub open spec fn yields(s: Seq<ObjectRecord>, k: nat) -> Seq<Option<ObjectRecord>> {
    Seq::new(k, |i: int| record_at(s, i))
}

/// `next` called until it is ready: its result, the cursor after it, and
/// the pages still to come.
pub open spec fn run_next(c: Cursor, pages: Seq<Seq<ObjectRecord>>) -> (
    Option<ObjectRecord>,
    Cursor,
    Seq<Seq<ObjectRecord>>,
)
    decreases pages.len(),
{
    match next_step(c) {
        (c1, Step::Ready(r)) => (r, c1, pages),
        (c1, Step::Fetch(_)) => if pages.len() == 0 {
            (None, c1, pages)
        } else {
            run_next(fetch_first(c1, pages), pages.drop_first())
        },
    }
}

/// `k` calls of `next` in a row.
pub open spec fn run_next_times(c: Cursor, pages: Seq<Seq<ObjectRecord>>, k: nat) -> (
    Seq<Option<ObjectRecord>>,
    Cursor,
    Seq<Seq<ObjectRecord>>,
)
    decreases k,
{
    if k == 0 {
        (Seq::empty(), c, pages)
    } else {
        let (r, c1, pages1) = run_next(c, pages);
        let (rs, c2, pages2) = run_next_times(c1, pages1, (k - 1) as nat);
        (seq![r] + rs, c2, pages2)
    }
}

/// `nth(n)` called until it is ready, with the skip that is carried over.
pub open spec fn run_nth(c: Cursor, pages: Seq<Seq<ObjectRecord>>, n: usize) -> (
    Option<ObjectRecord>,
    Cursor,
    Seq<Seq<ObjectRecord>>,
)
    decreases pages.len(),
{
    match nth_step(c, n) {
        (c1, Step::Ready(r)) => (r, c1, pages),
        (c1, Step::Fetch(m)) => if pages.len() == 0 {
            (None, c1, pages)
        } else {
            run_nth(fetch_first(c1, pages), pages.drop_first(), m)
        },
    }
}

/// `count` called until it is ready, with the count carried over.
pub open spec fn run_count(c: Cursor, pages: Seq<Seq<ObjectRecord>>, counted: usize) -> usize
    decreases pages.len(),
{
    match count_step(c, counted) {
        (_, Step::Ready(n)) => n,
        (c1, Step::Fetch(m)) => if pages.len() == 0 {
            m
        } else {
            run_count(fetch_first(c1, pages), pages.drop_first(), m)
        },
    }
}

/// `last` called until it is ready, with the record found carried over.
pub open spec fn run_last(
    c: Cursor,
    pages: Seq<Seq<ObjectRecord>>,
    found: Option<ObjectRecord>,
) -> Option<ObjectRecord>
    decreases pages.len(),
{
    match last_step(c, found) {
        (_, Step::Ready(r)) => r,
        (c1, Step::Fetch(seen)) => if pages.len() == 0 {
            seen
        } else {
            run_last(fetch_first(c1, pages), pages.drop_first(), seen)
        },
    }
}

proof fn lemma_fetch_first(c: Cursor, pages: Seq<Seq<ObjectRecord>>)
    requires
        pages.len() > 0,
        c.buffered.len() == 0,
        !c.exhausted,
    ensures
        remaining(fetch_first(c, pages), pages.drop_first()) == remaining(c, pages),
        agrees(fetch_first(c, pages), pages.drop_first()),
{
    assert(remaining(c, pages) =~= pages.flatten());
}

proof fn lemma_run_next(c: Cursor, pages: Seq<Seq<ObjectRecord>>)
    requires
        agrees(c, pages),
    ensures
        ({
            let rem = remaining(c, pages);
            let (r, c1, pages1) = run_next(c, pages);
            &&& agrees(c1, pages1)
            &&& r == record_at(rem, 0)
            &&& remaining(c1, pages1) == if rem.len() > 0 {
                rem.drop_first()
            } else {
                rem
            }
        }),
    decreases pages.len(),
{
    let rem = remaining(c, pages);
    if c.buffered.len() > 0 {
        let c1 = next_step(c).0;
        assert(remaining(c1, pages) =~= rem.drop_first());
    } else if c.exhausted {
        assert(rem =~= Seq::empty());
    } else {
        lemma_fetch_first(c, pages);
        lemma_run_next(fetch_first(c, pages), pages.drop_first());
    }
}

proof fn lemma_run_next_times(c: Cursor, pages: Seq<Seq<ObjectRecord>>, k: nat)
    requires
        agrees(c, pages),
    ensures
        ({
            let rem = remaining(c, pages);
            let (rs, c1, pages1) = run_next_times(c, pages, k);
            &&& agrees(c1, pages1)
            &&& rs == yields(rem, k)
            &&& remaining(c1, pages1) == if k <= rem.len() {
                rem.skip(k as int)
            } else {
                Seq::empty()
            }
        }),
    decreases k,
{
    let rem = remaining(c, pages);
    if k == 0 {
        assert(rem.skip(0) =~= rem);
        assert(yields(rem, 0) =~= Seq::empty());
    } else {
        lemma_run_next(c, pages);
        let (r, c1, pages1) = run_next(c, pages);
        lemma_run_next_times(c1, pages1, (k - 1) as nat);
        let rem1 = remaining(c1, pages1);
        let (rs, c2, pages2) = run_next_times(c1, pages1, (k - 1) as nat);
        if rem.len() > 0 {
            assert(rem1 == rem.drop_first());
            assert(yields(rem, k) =~= seq![r] + yields(rem1, (k - 1) as nat));
            if k <= rem.len() {
                assert(rem1.skip(k - 1) =~= rem.skip(k as int));
            }
        } else {
            assert(rem1 =~= Seq::empty());
            assert(yields(rem, k) =~= seq![r] + yields(rem1, (k - 1) as nat));
        }
    }
}

proof fn lemma_run_nth(c: Cursor, pages: Seq<Seq<ObjectRecord>>, n: usize)
    requires
        agrees(c, pages),
    ensures
        ({
            let rem = remaining(c, pages);
            let (r, c1, pages1) = run_nth(c, pages, n);
            &&& agrees(c1, pages1)
            &&& r == record_at(rem, n as int)
            &&& remaining(c1, pages1) == if n < rem.len() {
                rem.skip(n + 1)
            } else {
                Seq::empty()
            }
        }),
    decreases pages.len(),
{
    let rem = remaining(c, pages);
    if n < c.buffered.len() {
        let c1 = nth_step(c, n).0;
        assert(remaining(c1, pages) =~= rem.skip(n + 1));
    } else if c.exhausted {
        assert(rem =~= c.buffered);
        assert(remaining(emptied(c), pages) =~= Seq::empty());
    } else {
        let c1 = emptied(c);
        let m = (n - c.buffered.len()) as usize;
        lemma_fetch_first(c1, pages);
        lemma_run_nth(fetch_first(c1, pages), pages.drop_first(), m);
        let rest = remaining(c1, pages);
        assert(rest =~= rem.skip(c.buffered.len() as int));
        if n < rem.len() {
            assert(rest.skip(m + 1) =~= rem.skip(n + 1));
        }
    }
}

proof fn lemma_run_count(c: Cursor, pages: Seq<Seq<ObjectRecord>>, counted: usize)
    requires
        agrees(c, pages),
        counted + remaining(c, pages).len() <= usize::MAX,
    ensures
        run_count(c, pages, counted) == counted + remaining(c, pages).len(),
    decreases pages.len(),
{
    if !c.exhausted {
        let c1 = emptied(c);
        let m = (counted + c.buffered.len()) as usize;
        lemma_fetch_first(c1, pages);
        assert(remaining(c1, pages) =~= pages.flatten());
        lemma_run_count(fetch_first(c1, pages), pages.drop_first(), m);
    } else {
        assert(remaining(c, pages) =~= c.buffered);
    }
}

proof fn lemma_run_last(c: Cursor, pages: Seq<Seq<ObjectRecord>>, found: Option<ObjectRecord>)
    requires
        agrees(c, pages),
    ensures
        ({
            let rem = remaining(c, pages);
            run_last(c, pages, found) == if rem.len() > 0 {
                Some(rem.last())
            } else {
                found
            }
        }),
    decreases pages.len(),
{
    let rem = remaining(c, pages);
    if c.exhausted {
        assert(rem =~= c.buffered);
    } else {
        let c1 = emptied(c);
        let seen = last_step(c, found).1->Fetch_0;
        lemma_fetch_first(c1, pages);
        assert(remaining(c1, pages) =~= pages.flatten());
        lemma_run_last(fetch_first(c1, pages), pages.drop_first(), seen);
        let rest = pages.flatten();
        if rest.len() > 0 {
            assert(rem.last() == rest.last());
        }
    }
}

/// Whether key `a` comes before key `b` in the service's order: by
/// character code, a proper prefix first.
pub open spec fn key_less(a: Seq<char>, b: Seq<char>) -> bool
    decreases a.len(),
{
    if a.len() == 0 {
        b.len() > 0
    } else if b.len() == 0 {
        false
    } else if a[0] != b[0] {
        (a[0] as u32) < (b[0] as u32)
    } else {
        key_less(a.drop_first(), b.drop_first())
    }
}

/// The key of a record, or nothing for a record without key.
pub open spec fn record_key(r: ObjectRecord) -> Seq<char> {
    match r.key {
        Some(k) => k@,
        None => Seq::empty(),
    }
}

/// The records are listed in ascending key order, as the service lists
/// them.
pub open spec fn ascending(s: Seq<ObjectRecord>) -> bool {
    forall|i: int, j: int| 0 <= i < j < s.len() ==> key_less(record_key(s[i]), record_key(s[j]))
}

/// A fresh iterator driven with `next` hands out the records of the
/// listing one by one, in the order the service lists them (ascending by
/// key), and then `None` on every further call.
pub proof fn lemma_next_yields_listing(pages: Seq<Seq<ObjectRecord>>, k: nat)
    requires
        pages.len() > 0,
    ensures
        run_next_times(fresh_cursor(), pages, k).0 == yields(pages.flatten(), k),
{
    lemma_run_next_times(fresh_cursor(), pages, k);
    assert(remaining(fresh_cursor(), pages) =~= pages.flatten());
}

/// `nth(n)` and then `k` calls of `next` hand out, one for one, what
/// `n + 1 + k` calls of `next` hand out from the same point.
pub proof fn lemma_nth_then_next(c: Cursor, pages: Seq<Seq<ObjectRecord>>, n: usize, k: nat)
    requires
        agrees(c, pages),
    ensures
        ({
            let (r, c1, pages1) = run_nth(c, pages, n);
            let all = run_next_times(c, pages, (n + 1 + k) as nat).0;
            &&& r == all[n as int]
            &&& run_next_times(c1, pages1, k).0 == all.skip(n + 1)
        }),
{
    let rem = remaining(c, pages);
    let (r, c1, pages1) = run_nth(c, pages, n);
    lemma_run_nth(c, pages, n);
    lemma_run_next_times(c, pages, (n + 1 + k) as nat);
    lemma_run_next_times(c1, pages1, k);
    let all = run_next_times(c, pages, (n + 1 + k) as nat).0;
    let rem1 = remaining(c1, pages1);
    assert(yields(rem1, k) =~= yields(rem, (n + 1 + k) as nat).skip(n + 1));
}

/// `count` after `j` calls of `next` on a fresh iterator over `n` records
/// gives `n - j`.
pub proof fn lemma_count_after_next(pages: Seq<Seq<ObjectRecord>>, j: nat)
    requires
        pages.len() > 0,
        pages.flatten().len() <= usize::MAX,
        j <= pages.flatten().len(),
    ensures
        ({
            let (_, c1, pages1) = run_next_times(fresh_cursor(), pages, j);
            run_count(c1, pages1, 0) == pages.flatten().len() - j
        }),
{
    let (_, c1, pages1) = run_next_times(fresh_cursor(), pages, j);
    assert(remaining(fresh_cursor(), pages) =~= pages.flatten());
    lemma_run_next_times(fresh_cursor(), pages, j);
    lemma_run_count(c1, pages1, 0);
}

/// `last` on a fresh iterator gives `None` on an empty listing, and else
/// the final record of the listing; in a listing in ascending key order,
/// that record's key is greater than every other key.
pub proof fn lemma_last_is_final_record(pages: Seq<Seq<ObjectRecord>>)
    requires
        pages.len() > 0,
    ensures
        run_last(fresh_cursor(), pages, None) == if pages.flatten().len() > 0 {
            Some(pages.flatten().last())
        } else {
            None
        },
        ascending(pages.flatten()) ==> forall|i: int|
            0 <= i < pages.flatten().len() - 1 ==> key_less(
                record_key(#[trigger] pages.flatten()[i]),
                record_key(pages.flatten().last()),
            ),
{
    assert(remaining(fresh_cursor(), pages) =~= pages.flatten());
    lemma_run_last(fresh_cursor(), pages, None);
}

} // verus!
