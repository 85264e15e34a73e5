use s4::error::S4Error;
use s4::iter::{
    GetObjectIter, GetObjectRequest, ListPage, ListingRequest, ObjectIter, ObjectRecord, Step,
    MISSING_KEY, PAGE_SIZE,
};

/// A bucket held in memory that answers listings the way the service does:
/// keys in ascending order, at most `max_keys` per page, and a continuation
/// token on every page but the last.
struct Bucket {
    objects: Vec<(String, Vec<u8>)>,
    empty_pages: bool,
    listings: usize,
    retrievals: usize,
}

impl Bucket {
    fn new() -> Bucket {
        Bucket { objects: Vec::new(), empty_pages: false, listings: 0, retrievals: 0 }
    }

    fn put(&mut self, key: &str, body: Vec<u8>) {
        match self.objects.binary_search_by(|(k, _)| k.as_str().cmp(key)) {
            Ok(i) => self.objects[i].1 = body,
            Err(i) => self.objects.insert(i, (key.to_owned(), body)),
        }
    }

    fn list(&mut self, req: &ListingRequest) -> ListPage {
        self.listings += 1;
        let matching: Vec<&(String, Vec<u8>)> = self
            .objects
            .iter()
            .filter(|(k, _)| req.prefix.as_ref().map_or(true, |p| k.starts_with(p.as_str())))
            .filter(|(k, _)| req.continuation_token.as_ref().map_or(true, |t| k > t))
            .collect();
        let max = req.max_keys as usize;
        if self.empty_pages && req.continuation_token.as_ref().map_or(false, |t| !t.ends_with('!')) {
            // an empty page that still carries a token
            let token = format!("{}!", req.continuation_token.clone().unwrap());
            return ListPage { contents: None, next_continuation_token: Some(token) };
        }
        let page: Vec<ObjectRecord> = matching
            .iter()
            .take(max)
            .map(|(k, b)| ObjectRecord {
                key: Some(k.clone()),
                size: Some(b.len() as i64),
                e_tag: None,
                last_modified: None,
                storage_class: None,
            })
            .collect();
        let token = if matching.len() > max {
            page.last().and_then(|o| o.key.clone())
        } else {
            None
        };
        ListPage {
            contents: if page.is_empty() { None } else { Some(page) },
            next_continuation_token: token,
        }
    }

    fn get(&mut self, req: &GetObjectRequest) -> Vec<u8> {
        self.retrievals += 1;
        self.objects.iter().find(|(k, _)| *k == req.key).map(|(_, b)| b.clone()).unwrap()
    }
}

fn fetch(it: &mut ObjectIter, bucket: &mut Bucket) {
    let page = bucket.list(it.request());
    it.next_objects(page);
}

fn next(it: &mut ObjectIter, bucket: &mut Bucket) -> Option<ObjectRecord> {
    loop {
        match it.next() {
            Step::Ready(r) => return r,
            Step::Fetch(()) => fetch(it, bucket),
        }
    }
}

fn nth(it: &mut ObjectIter, bucket: &mut Bucket, n: usize) -> Option<ObjectRecord> {
    let mut n = n;
    loop {
        match it.nth(n) {
            Step::Ready(r) => return r,
            Step::Fetch(m) => {
                n = m;
                fetch(it, bucket);
            }
        }
    }
}

fn count(mut it: ObjectIter, bucket: &mut Bucket) -> usize {
    let mut counted = 0;
    loop {
        match it.count(counted) {
            Step::Ready(n) => return n,
            Step::Fetch(n) => {
                counted = n;
                fetch(&mut it, bucket);
            }
        }
    }
}

fn last(mut it: ObjectIter, bucket: &mut Bucket) -> Option<ObjectRecord> {
    let mut found = None;
    loop {
        match it.last(found) {
            Step::Ready(r) => return r,
            Step::Fetch(seen) => {
                found = seen;
                fetch(&mut it, bucket);
            }
        }
    }
}

fn get_fetch(it: &mut GetObjectIter, bucket: &mut Bucket) {
    let page = bucket.list(it.request());
    it.next_objects(page);
}

fn get_body(
    r: Result<Option<GetObjectRequest>, S4Error>,
    bucket: &mut Bucket,
) -> Result<Option<Vec<u8>>, S4Error> {
    match r {
        Ok(Some(req)) => Ok(Some(bucket.get(&req))),
        Ok(None) => Ok(None),
        Err(e) => Err(e),
    }
}

fn get_next(it: &mut GetObjectIter, bucket: &mut Bucket) -> Result<Option<Vec<u8>>, S4Error> {
    loop {
        match it.next() {
            Step::Ready(r) => return get_body(r, bucket),
            Step::Fetch(()) => get_fetch(it, bucket),
        }
    }
}

fn get_nth(
    it: &mut GetObjectIter,
    bucket: &mut Bucket,
    n: usize,
) -> Result<Option<Vec<u8>>, S4Error> {
    let mut n = n;
    loop {
        match it.nth(n) {
            Step::Ready(r) => return get_body(r, bucket),
            Step::Fetch(m) => {
                n = m;
                get_fetch(it, bucket);
            }
        }
    }
}

fn get_count(mut it: GetObjectIter, bucket: &mut Bucket) -> usize {
    let mut counted = 0;
    loop {
        match it.count(counted) {
            Step::Ready(n) => return n,
            Step::Fetch(n) => {
                counted = n;
                get_fetch(&mut it, bucket);
            }
        }
    }
}

fn get_last(mut it: GetObjectIter, bucket: &mut Bucket) -> Result<Option<Vec<u8>>, S4Error> {
    let mut found = None;
    loop {
        match it.last(found) {
            Step::Ready(r) => return get_body(r, bucket),
            Step::Fetch(seen) => {
                found = seen;
                get_fetch(&mut it, bucket);
            }
        }
    }
}

fn key(o: Option<ObjectRecord>) -> String {
    o.unwrap().key.unwrap()
}

fn assert_body(output: Result<Option<Vec<u8>>, S4Error>, expected: &[u8]) {
    assert_eq!(output.unwrap().unwrap(), expected);
}

#[test]
fn iter_objects() {
    let mut bucket = Bucket::new();
    for i in (0..2003).map(|i| format!("{:04}", i)) {
        bucket.put(&i, vec![]);
    }

    let mut iter = ObjectIter::new("bucket", None);
    for i in (0..2003).map(|i| format!("{:04}", i)) {
        let object = next(&mut iter, &mut bucket);
        assert_eq!(key(object), i);
    }
    assert!(next(&mut iter, &mut bucket).is_none());
}

#[test]
fn iter_objects_with_prefix() {
    let mut bucket = Bucket::new();
    for i in (0..1005).map(|i| format!("a/{:04}", i)) {
        bucket.put(&i, vec![]);
    }
    bucket.put("b/1234", vec![]);

    let mut iter = ObjectIter::new("bucket", Some("a/"));
    for i in (0..1005).map(|i| format!("a/{:04}", i)) {
        let object = next(&mut iter, &mut bucket);
        assert_eq!(key(object), i);
    }
    assert!(next(&mut iter, &mut bucket).is_none());
}

#[test]
fn iter_objects_nth() {
    let mut bucket = Bucket::new();
    for i in (1..2081).map(|i| format!("{:04}", i)) {
        bucket.put(&i, vec![]);
    }

    let mut iter = ObjectIter::new("bucket", None);
    assert_eq!(key(nth(&mut iter, &mut bucket, 0)), "0001");
    assert_eq!(key(nth(&mut iter, &mut bucket, 2)), "0004");
    assert_eq!(key(nth(&mut iter, &mut bucket, 1999)), "2004");
    assert_eq!(key(nth(&mut iter, &mut bucket, 75)), "2080");
    assert!(nth(&mut iter, &mut bucket, 0).is_none());
    assert!(nth(&mut iter, &mut bucket, 3).is_none());

    let mut iter = ObjectIter::new("bucket", None);
    assert_eq!(key(nth(&mut iter, &mut bucket, 1000)), "1001");
    assert_eq!(key(nth(&mut iter, &mut bucket, 997)), "1999");
    assert_eq!(key(nth(&mut iter, &mut bucket, 0)), "2000");
    assert_eq!(key(nth(&mut iter, &mut bucket, 0)), "2001");

    let mut iter = ObjectIter::new("bucket", None);
    assert_eq!(key(nth(&mut iter, &mut bucket, 2030)), "2031");
}

#[test]
fn iter_objects_count() {
    let mut bucket = Bucket::new();

    assert_eq!(count(ObjectIter::new("bucket", None), &mut bucket), 0);

    for i in (0..2122).map(|i| format!("{:04}", i)) {
        bucket.put(&i, vec![]);
    }

    assert_eq!(count(ObjectIter::new("bucket", None), &mut bucket), 2122);

    let mut iter = ObjectIter::new("bucket", None);
    nth(&mut iter, &mut bucket, 1199).unwrap();
    assert_eq!(count(iter, &mut bucket), 922);

    let mut iter = ObjectIter::new("bucket", None);
    nth(&mut iter, &mut bucket, 2120).unwrap();
    assert_eq!(count(iter, &mut bucket), 1);

    let mut iter = ObjectIter::new("bucket", None);
    nth(&mut iter, &mut bucket, 2121).unwrap();
    assert_eq!(count(iter, &mut bucket), 0);

    let mut iter = ObjectIter::new("bucket", None);
    assert!(nth(&mut iter, &mut bucket, 2122).is_none());
    assert_eq!(count(iter, &mut bucket), 0);
}

#[test]
fn iter_objects_last() {
    let mut bucket = Bucket::new();

    assert!(last(ObjectIter::new("bucket", None), &mut bucket).is_none());

    for i in (1..1000).map(|i| format!("{:04}", i)) {
        bucket.put(&i, vec![]);
    }

    assert_eq!(key(last(ObjectIter::new("bucket", None), &mut bucket)), "0999");
    bucket.put("1000", vec![]);
    assert_eq!(key(last(ObjectIter::new("bucket", None), &mut bucket)), "1000");
    bucket.put("1001", vec![]);
    assert_eq!(key(last(ObjectIter::new("bucket", None), &mut bucket)), "1001");
}

#[test]
fn iter_get_objects() {
    let mut bucket = Bucket::new();
    for i in (1..1004).map(|i| format!("{:04}", i)) {
        bucket.put(&i, i.clone().into_bytes());
    }

    let mut iter = GetObjectIter::new("bucket", None);
    for i in (1..1004).map(|i| format!("{:04}", i)) {
        let body = get_next(&mut iter, &mut bucket).unwrap().unwrap();
        assert_eq!(body, i.as_bytes());
    }
    assert!(get_next(&mut iter, &mut bucket).unwrap().is_none());
}

#[test]
fn iter_get_objects_nth() {
    let mut bucket = Bucket::new();
    for i in (1..1003).map(|i| format!("{:04}", i)) {
        bucket.put(&i, i.clone().into_bytes());
    }

    let mut iter = GetObjectIter::new("bucket", None);
    assert_body(get_nth(&mut iter, &mut bucket, 0), b"0001");
    assert_body(get_nth(&mut iter, &mut bucket, 997), b"0999");
    assert_body(get_nth(&mut iter, &mut bucket, 0), b"1000");
    assert_body(get_nth(&mut iter, &mut bucket, 0), b"1001");
    assert_body(get_nth(&mut iter, &mut bucket, 0), b"1002");
    assert!(get_nth(&mut iter, &mut bucket, 0).unwrap().is_none());
}

#[test]
fn iter_get_objects_with_prefix_count() {
    let mut bucket = Bucket::new();
    bucket.put("a/0020", vec![]);
    bucket.put("c/0030", vec![]);
    assert_eq!(get_count(GetObjectIter::new("bucket", Some("b/")), &mut bucket), 0);

    for i in (0..533).map(|i| format!("b/{:04}", i)) {
        bucket.put(&i, i.clone().into_bytes());
    }

    assert_eq!(get_count(GetObjectIter::new("bucket", Some("b/")), &mut bucket), 533);
    assert_eq!(bucket.retrievals, 0);
}

#[test]
fn iter_get_objects_last() {
    let mut bucket = Bucket::new();

    assert!(get_last(GetObjectIter::new("bucket", None), &mut bucket).unwrap().is_none());

    for i in (1..1002).map(|i| format!("{:04}", i)) {
        bucket.put(&i, i.clone().into_bytes());
    }

    assert_body(get_last(GetObjectIter::new("bucket", None), &mut bucket), b"1001");
    assert_eq!(bucket.retrievals, 1);
}

#[test]
fn fresh_iterator_asks_for_first_page() {
    let iter = ObjectIter::new("photos", Some("2017/"));
    let req = iter.request();
    assert_eq!(req.bucket, "photos");
    assert_eq!(req.prefix.as_deref(), Some("2017/"));
    assert_eq!(req.continuation_token, None);
    assert_eq!(req.max_keys, PAGE_SIZE);
    assert_eq!(PAGE_SIZE, 1000);
}

#[test]
fn continuation_token_is_carried_to_next_request() {
    let mut iter = ObjectIter::new("b", None);
    iter.next_objects(ListPage { contents: None, next_continuation_token: Some("tok".to_owned()) });
    assert_eq!(iter.request().continuation_token.as_deref(), Some("tok"));
    match iter.next() {
        Step::Fetch(()) => {}
        Step::Ready(_) => panic!("an empty page with a token is not the end"),
    }
}

#[test]
fn empty_bucket_yields_none_repeatedly() {
    let mut bucket = Bucket::new();
    let mut iter = ObjectIter::new("bucket", None);
    assert!(next(&mut iter, &mut bucket).is_none());
    assert!(next(&mut iter, &mut bucket).is_none());
    assert!(next(&mut iter, &mut bucket).is_none());
    assert_eq!(bucket.listings, 1);
}

#[test]
fn listing_in_order_then_none_across_empty_pages() {
    let mut bucket = Bucket::new();
    bucket.empty_pages = true;
    for i in (0..2500).map(|i| format!("{:04}", i)) {
        bucket.put(&i, vec![]);
    }
    let mut iter = ObjectIter::new("bucket", None);
    for i in (0..2500).map(|i| format!("{:04}", i)) {
        assert_eq!(key(next(&mut iter, &mut bucket)), i);
    }
    assert!(next(&mut iter, &mut bucket).is_none());
    assert!(next(&mut iter, &mut bucket).is_none());
}

#[test]
fn last_skips_empty_page() {
    let mut bucket = Bucket::new();
    bucket.empty_pages = true;
    for i in (0..1000).map(|i| format!("{:04}", i)) {
        bucket.put(&i, vec![]);
    }
    bucket.put("zzzz", vec![]);
    assert_eq!(key(last(ObjectIter::new("bucket", None), &mut bucket)), "zzzz");
}

#[test]
fn nth_then_next_matches_repeated_next() {
    let mut bucket = Bucket::new();
    for i in (0..2345).map(|i| format!("{:04}", i)) {
        bucket.put(&i, vec![]);
    }
    for &(n, k) in &[(0usize, 5usize), (999, 3), (1000, 2), (1500, 900), (2343, 4), (3000, 2)] {
        let mut a = ObjectIter::new("bucket", None);
        let mut all = Vec::new();
        for _ in 0..(n + 1 + k) {
            all.push(next(&mut a, &mut bucket).map(|o| o.key.unwrap()));
        }
        let mut b = ObjectIter::new("bucket", None);
        assert_eq!(nth(&mut b, &mut bucket, n).map(|o| o.key.unwrap()), all[n]);
        for j in 0..k {
            assert_eq!(next(&mut b, &mut bucket).map(|o| o.key.unwrap()), all[n + 1 + j]);
        }
    }
}

#[test]
fn count_after_consuming_items() {
    let mut bucket = Bucket::new();
    for i in (0..1234).map(|i| format!("{:04}", i)) {
        bucket.put(&i, vec![]);
    }
    for &j in &[0usize, 1, 999, 1000, 1001, 1233, 1234] {
        let mut iter = ObjectIter::new("bucket", None);
        for _ in 0..j {
            next(&mut iter, &mut bucket).unwrap();
        }
        assert_eq!(count(iter, &mut bucket), 1234 - j);
    }
}

#[test]
fn record_without_key_is_an_error() {
    let mut iter = GetObjectIter::new("bucket", None);
    let record = ObjectRecord {
        key: None,
        size: Some(3),
        e_tag: None,
        last_modified: None,
        storage_class: None,
    };
    iter.next_objects(ListPage { contents: Some(vec![record]), next_continuation_token: None });
    match iter.next() {
        Step::Ready(Err(S4Error::Other(m))) => assert_eq!(m, MISSING_KEY),
        r => panic!("unexpected result: {:?}", r),
    }
}

#[test]
fn retrieval_asks_for_listed_key_in_bucket() {
    let iter = GetObjectIter::new("bucket", None);
    let record = ObjectRecord {
        key: Some("k/1".to_owned()),
        size: None,
        e_tag: None,
        last_modified: None,
        storage_class: None,
    };
    let req = iter.retrieve(Some(record)).unwrap().unwrap();
    assert_eq!(req.bucket, "bucket");
    assert_eq!(req.key, "k/1");
    assert!(iter.retrieve(None).unwrap().is_none());
}
