use std::collections::VecDeque;
use vstd::prelude::*;

use crate::error::{S4Error, S4Result};

verus! {

/// Number of keys asked for in each page of a listing.
pub const PAGE_SIZE: i64 = 1000;

/// Error message for a listed record that carries no key.
pub const MISSING_KEY: &'static str = "response is missing key";

/// Metadata of one listed object, as the service reports it.
#[derive(Clone, Debug)]
pub struct ObjectRecord {
    pub key: Option<String>,
    pub size: Option<i64>,
    pub e_tag: Option<String>,
    pub last_modified: Option<String>,
    pub storage_class: Option<String>,
}

/// A "list objects" request: which bucket and prefix, where to go on from,
/// and how many keys to ask for.
#[derive(Clone, Debug)]
pub struct ListingRequest {
    pub bucket: String,
    pub prefix: Option<String>,
    pub continuation_token: Option<String>,
    pub max_keys: i64,
}

/// The service's answer to one listing request.
#[derive(Clone, Debug)]
pub struct ListPage {
    pub contents: Option<Vec<ObjectRecord>>,
    pub next_continuation_token: Option<String>,
}

/// A request to retrieve one object.
#[derive(Clone, Debug)]
pub struct GetObjectRequest {
    pub bucket: String,
    pub key: String,
}

/// The outcome of one call of an iterator operation.
#[derive(Debug)]
pub enum Step<T, S> {
    /// The operation has finished with this value.
    Ready(T),
    /// The operation needs the next page: fetch it with the iterator's
    /// request, hand it to `next_objects`, and call the operation again
    /// with this value.
    Fetch(S),
}

/// What an iterator holds: the records of the current page that it has not
/// handed out yet, and whether the service said that no page follows.
pub struct Cursor {
    pub buffered: Seq<ObjectRecord>,
    pub exhausted: bool,
}

/// The cursor of a fresh iterator.
pub open spec fn fresh_cursor() -> Cursor {
    Cursor { buffered: Seq::empty(), exhausted: false }
}

/// The cursor with its page dropped.
pub open spec fn emptied(c: Cursor) -> Cursor {
    Cursor { buffered: Seq::empty(), exhausted: c.exhausted }
}

/// One call of `next`.
pub open spec fn next_step(c: Cursor) -> (Cursor, Step<Option<ObjectRecord>, ()>) {
    if c.buffered.len() > 0 {
        (
            Cursor { buffered: c.buffered.drop_first(), exhausted: c.exhausted },
            Step::Ready(Some(c.buffered[0])),
        )
    } else if c.exhausted {
        (c, Step::Ready(None))
    } else {
        (c, Step::Fetch(()))
    }
}

/// One call of `nth`: skip `n` records and hand out the one after them.
/// When the page holds too few, it is dropped and the rest of the skip is
/// carried over to the next page.
pub open spec fn nth_step(c: Cursor, n: usize) -> (Cursor, Step<Option<ObjectRecord>, usize>) {
    if n < c.buffered.len() {
        (
            Cursor { buffered: c.buffered.skip(n + 1), exhausted: c.exhausted },
            Step::Ready(Some(c.buffered[n as int])),
        )
    } else if c.exhausted {
        (emptied(c), Step::Ready(None))
    } else {
        (emptied(c), Step::Fetch((n - c.buffered.len()) as usize))
    }
}

/// One call of `count`: add the page's length to what was counted so far.
pub open spec fn count_step(c: Cursor, counted: usize) -> (Cursor, Step<usize, usize>) {
    let total = (counted + c.buffered.len()) as usize;
    if c.exhausted {
        (emptied(c), Step::Ready(total))
    } else {
        (emptied(c), Step::Fetch(total))
    }
}

/// One call of `last`: keep the page's last record if it has one, else
/// the record found on an earlier page.
pub open spec fn last_step(c: Cursor, found: Option<ObjectRecord>) -> (
    Cursor,
    Step<Option<ObjectRecord>, Option<ObjectRecord>>,
) {
    let seen = if c.buffered.len() > 0 {
        Some(c.buffered.last())
    } else {
        found
    };
    if c.exhausted {
        (emptied(c), Step::Ready(seen))
    } else {
        (emptied(c), Step::Fetch(seen))
    }
}

/// The records of a page, an absent list being an empty page.
pub open spec fn page_records(page: ListPage) -> Seq<ObjectRecord> {
    match page.contents {
        Some(v) => v@,
        None => Seq::empty(),
    }
}

/// The cursor after a page has come in: its records replace the buffer,
/// and a page without continuation token ends the listing.
pub open spec fn receive_page(c: Cursor, records: Seq<ObjectRecord>, more: bool) -> Cursor {
    Cursor { buffered: records, exhausted: c.exhausted || !more }
}

/// The request after a page has come in: it goes on from the page's token.
pub open spec fn next_request(req: ListingRequest, page: ListPage) -> ListingRequest {
    match page.next_continuation_token {
        Some(t) => ListingRequest { continuation_token: Some(t), ..req },
        None => req,
    }
}

/// The characters of an optional string.
pub open spec fn str_view(s: Option<&str>) -> Option<Seq<char>> {
    match s {
        Some(s) => Some(s@),
        None => None,
    }
}

/// The request of a fresh iterator: the first page of `bucket`, limited to
/// keys that start with `prefix` if one is given.
pub open spec fn starts_listing(
    req: ListingRequest,
    bucket: Seq<char>,
    prefix: Option<Seq<char>>,
) -> bool {
    &&& req.bucket@ == bucket
    &&& match (req.prefix, prefix) {
        (Some(a), Some(b)) => a@ == b,
        (None, None) => true,
        _ => false,
    }
    &&& req.continuation_token is None
    &&& req.max_keys == PAGE_SIZE
}

/// What retrieving `object` asks for: nothing at the end of the listing,
/// an error for a record without key, else that key in `bucket`.
pub open spec fn retrieves(
    bucket: Seq<char>,
    object: Option<ObjectRecord>,
    r: S4Result<Option<GetObjectRequest>>,
) -> bool {
    match object {
        None => r matches Ok(None),
        Some(o) => match o.key {
            None => r matches Err(S4Error::Other(m)) && m == MISSING_KEY,
            Some(k) => r matches Ok(Some(req)) && req.bucket@ == bucket && req.key == k,
        },
    }
}

/// A step of the retrieving iterator follows the step of the listing: the
/// same page is asked for, and a finished listing step is retrieved.
pub open spec fn retrieves_step<S>(
    bucket: Seq<char>,
    listed: Step<Option<ObjectRecord>, S>,
    r: Step<S4Result<Option<GetObjectRequest>>, S>,
) -> bool {
    match (listed, r) {
        (Step::Ready(o), Step::Ready(x)) => retrieves(bucket, o, x),
        (Step::Fetch(a), Step::Fetch(b)) => a == b,
        _ => false,
    }
}

/// Moves the records of a page into a queue, in order.
fn into_queue(records: Vec<ObjectRecord>) -> (q: VecDeque<ObjectRecord>)
    ensures
        q@ == records@,
{
    let ghost all = records@;
    let mut records = records;
    let mut q: VecDeque<ObjectRecord> = VecDeque::new();
    while records.len() > 0
        invariant
            records@ + q@ == all,
        decreases records.len(),
    {
        let ghost before = records@;
        let r = records.pop().unwrap();
        q.push_front(r);
        assert(records@ + q@ =~= before + (q@.drop_first()));
    }
    assert(q@ =~= all);
    q
}

/// Iterator over all objects of a bucket, or over those with a given
/// prefix, in the order the service lists them.
///
/// It holds one page at a time. Each operation either finishes or asks for
/// the next page, which the caller fetches with `request` and hands to
/// `next_objects`.
pub struct ObjectIter {
    request: ListingRequest,
    objects: VecDeque<ObjectRecord>,
    exhausted: bool,
}

impl View for ObjectIter {
    type V = Cursor;

    closed spec fn view(&self) -> Cursor {
        Cursor { buffered: self.objects@, exhausted: self.exhausted }
    }
}

impl ObjectIter {
    /// The request for the next page.
    pub closed spec fn spec_request(&self) -> ListingRequest {
        self.request
    }

    pub fn new(bucket: &str, prefix: Option<&str>) -> (r: ObjectIter)
        ensures
            r@ == fresh_cursor(),
            starts_listing(r.spec_request(), bucket@, str_view(prefix)),
    {
        let prefix = match prefix {
            Some(p) => Some(p.to_owned()),
            None => None,
        };
        let request = ListingRequest {
            bucket: bucket.to_owned(),
            prefix,
            continuation_token: None,
            max_keys: PAGE_SIZE,
        };
        let r = ObjectIter { request, objects: VecDeque::new(), exhausted: false };
        assert(r@ =~= fresh_cursor());
        r
    }

    /// The request with which the next page is fetched.
    pub fn request(&self) -> (r: &ListingRequest)
        ensures
            *r == self.spec_request(),
    {
        &self.request
    }

    /// Takes in the next page of the listing.
    pub fn next_objects(&mut self, page: ListPage)
        ensures
            final(self)@ == receive_page(
                old(self)@,
                page_records(page),
                page.next_continuation_token is Some,
            ),
            final(self).spec_request() == next_request(old(self).spec_request(), page),
    {
        let records = match page.contents {
            Some(v) => v,
            None => Vec::new(),
        };
        self.objects = into_queue(records);
        match page.next_continuation_token {
            Some(t) => {
                self.request.continuation_token = Some(t);
            },
            None => {
                self.exhausted = true;
            },
        }
    }

    /// Hands out the next record.
    pub fn next(&mut self) -> (r: Step<Option<ObjectRecord>, ()>)
        ensures
            (final(self)@, r) == next_step(old(self)@),
            final(self).spec_request() == old(self).spec_request(),
    {
        if self.objects.len() > 0 {
            let o = self.objects.pop_front();
            Step::Ready(o)
        } else if !self.exhausted {
            Step::Fetch(())
        } else {
            Step::Ready(None)
        }
    }

    /// Skips `n` records and hands out the one after them.
    pub fn nth(&mut self, n: usize) -> (r: Step<Option<ObjectRecord>, usize>)
        ensures
            (final(self)@, r) == nth_step(old(self)@, n),
            final(self).spec_request() == old(self).spec_request(),
    {
        let len = self.objects.len();
        if n < len {
            let rest = self.objects.split_off(n);
            self.objects = rest;
            let o = self.objects.pop_front();
            assert(self.objects@ =~= old(self)@.buffered.skip(n + 1));
            Step::Ready(o)
        } else {
            self.objects.clear();
            assert(self@ =~= emptied(old(self)@));
            if self.exhausted {
                Step::Ready(None)
            } else {
                Step::Fetch(n - len)
            }
        }
    }

    /// Counts the records from here to the end, `counted` being the number
    /// counted on earlier pages.
    pub fn count(&mut self, counted: usize) -> (r: Step<usize, usize>)
        requires
            counted + old(self)@.buffered.len() <= usize::MAX,
        ensures
            (final(self)@, r) == count_step(old(self)@, counted),
            final(self).spec_request() == old(self).spec_request(),
    {
        let total = counted + self.objects.len();
        self.objects.clear();
        if self.exhausted {
            Step::Ready(total)
        } else {
            Step::Fetch(total)
        }
    }

    /// Finds the last record, `found` being the last one seen on earlier
    /// pages. Only that one record is kept from page to page.
    pub fn last(&mut self, found: Option<ObjectRecord>) -> (r: Step<
        Option<ObjectRecord>,
        Option<ObjectRecord>,
    >)
        ensures
            (final(self)@, r) == last_step(old(self)@, found),
            final(self).spec_request() == old(self).spec_request(),
    {
        let seen = match self.objects.pop_back() {
            Some(o) => Some(o),
            None => found,
        };
        self.objects.clear();
        if self.exhausted {
            Step::Ready(seen)
        } else {
            Step::Fetch(seen)
        }
    }
}

/// Iterator that retrieves each listed object: for every record that the
/// listing hands out, it asks for that object's retrieval.
///
/// Counting goes through the listing alone and asks for no retrieval.
pub struct GetObjectIter {
    inner: ObjectIter,
    bucket: String,
}

impl View for GetObjectIter {
    type V = Cursor;

    closed spec fn view(&self) -> Cursor {
        self.inner@
    }
}

impl GetObjectIter {
    /// The request for the next page.
    pub closed spec fn spec_request(&self) -> ListingRequest {
        self.inner.spec_request()
    }

    /// The bucket the objects are retrieved from.
    pub closed spec fn spec_bucket(&self) -> Seq<char> {
        self.bucket@
    }

    pub fn new(bucket: &str, prefix: Option<&str>) -> (r: GetObjectIter)
        ensures
            r@ == fresh_cursor(),
            starts_listing(r.spec_request(), bucket@, str_view(prefix)),
            r.spec_bucket() == bucket@,
    {
        GetObjectIter { inner: ObjectIter::new(bucket, prefix), bucket: bucket.to_owned() }
    }

    /// The request with which the next page is fetched.
    pub fn request(&self) -> (r: &ListingRequest)
        ensures
            *r == self.spec_request(),
    {
        self.inner.request()
    }

    /// Takes in the next page of the listing.
    pub fn next_objects(&mut self, page: ListPage)
        ensures
            final(self)@ == receive_page(
                old(self)@,
                page_records(page),
                page.next_continuation_token is Some,
            ),
            final(self).spec_request() == next_request(old(self).spec_request(), page),
            final(self).spec_bucket() == old(self).spec_bucket(),
    {
        self.inner.next_objects(page);
    }

    /// The retrieval of a listed record.
    pub fn retrieve(&self, object: Option<ObjectRecord>) -> (r: S4Result<Option<GetObjectRequest>>)
        ensures
            retrieves(self.spec_bucket(), object, r),
    {
        match object {
            Some(object) => match object.key {
                Some(key) => Ok(Some(GetObjectRequest { bucket: self.bucket.clone(), key })),
                None => Err(S4Error::Other(MISSING_KEY)),
            },
            None => Ok(None),
        }
    }

    /// Retrieves the next object.
    pub fn next(&mut self) -> (r: Step<S4Result<Option<GetObjectRequest>>, ()>)
        ensures
            final(self)@ == next_step(old(self)@).0,
            retrieves_step(old(self).spec_bucket(), next_step(old(self)@).1, r),
            final(self).spec_request() == old(self).spec_request(),
            final(self).spec_bucket() == old(self).spec_bucket(),
    {
        match self.inner.next() {
            Step::Ready(o) => Step::Ready(self.retrieve(o)),
            Step::Fetch(u) => Step::Fetch(u),
        }
    }

    /// Skips `n` objects without retrieving them and retrieves the one after.
    pub fn nth(&mut self, n: usize) -> (r: Step<S4Result<Option<GetObjectRequest>>, usize>)
        ensures
            final(self)@ == nth_step(old(self)@, n).0,
            retrieves_step(old(self).spec_bucket(), nth_step(old(self)@, n).1, r),
            final(self).spec_request() == old(self).spec_request(),
            final(self).spec_bucket() == old(self).spec_bucket(),
    {
        match self.inner.nth(n) {
            Step::Ready(o) => Step::Ready(self.retrieve(o)),
            Step::Fetch(m) => Step::Fetch(m),
        }
    }

    /// Counts the objects from here to the end without retrieving any.
    pub fn count(&mut self, counted: usize) -> (r: Step<usize, usize>)
        requires
            counted + old(self)@.buffered.len() <= usize::MAX,
        ensures
            (final(self)@, r) == count_step(old(self)@, counted),
            final(self).spec_request() == old(self).spec_request(),
            final(self).spec_bucket() == old(self).spec_bucket(),
    {
        self.inner.count(counted)
    }

    /// Finds the last object and retrieves that one alone.
    pub fn last(&mut self, found: Option<ObjectRecord>) -> (r: Step<
        S4Result<Option<GetObjectRequest>>,
        Option<ObjectRecord>,
    >)
        ensures
            final(self)@ == last_step(old(self)@, found).0,
            retrieves_step(old(self).spec_bucket(), last_step(old(self)@, found).1, r),
            final(self).spec_request() == old(self).spec_request(),
            final(self).spec_bucket() == old(self).spec_bucket(),
    {
        match self.inner.last(found) {
            Step::Ready(o) => Step::Ready(self.retrieve(o)),
            Step::Fetch(seen) => Step::Fetch(seen),
        }
    }
}

} // verus!
