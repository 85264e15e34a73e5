use s4::client_builder::{S4ClientBuilder, DEFAULT_MULTIPART_THRESHOLD};

#[test]
fn build() {
    let mut builder = S4ClientBuilder::new(("akey".to_owned(), "skey".to_owned()), "test-dispatch");
    builder.multipart_threshold(5 * 1024 * 1024).default_bucket("test123".to_owned());
    let (cred, dispatch, threshold, bucket) = builder.into_parts();
    assert_eq!(cred, ("akey".to_owned(), "skey".to_owned()));
    assert_eq!(dispatch, "test-dispatch");
    assert_eq!(threshold, 1024 * 5 * 1024);
    assert_eq!(bucket.as_deref(), Some("test123"));
}

#[test]
fn builder_defaults() {
    let builder = S4ClientBuilder::new((), ());
    let (_, _, threshold, bucket) = builder.into_parts();
    assert_eq!(threshold, DEFAULT_MULTIPART_THRESHOLD);
    assert_eq!(threshold, 20 * 1024 * 1024);
    assert!(bucket.is_none());
}
